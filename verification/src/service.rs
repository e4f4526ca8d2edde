//! The PUS service engine: reads a telecommand, checks that it is meant for the
//! service, has it parsed and handled, and reports each step of the verification
//! state machine with a telemetry packet of service 1.

pub mod util;

use crate::packets::{
    pus_tc_read,
    read_pus_tc,
    success_report,
    verification_failure,
    verification_success,
    write_acceptance_failure,
    write_acceptance_success,
    write_completion_failure,
    write_completion_success,
    write_start_failure,
    write_start_success,
    PusTc,
    PusTcView,
    ReportHeader,
    TmContent,
    MAX_APID,
    MAX_FAILURE_DATA,
    MAX_TM_PAYLOAD,
    REPORT_SOURCE_CAPACITY,
    SEQUENCE_COUNT,
    TM_DESTINATION,
};
use crate::time::TimestampHelper;
use crate::types::{
    contents,
    counter_after,
    lemma_counter_after_add,
    next_counter,
    EcssTmtcError,
    RccnEcssTmSender,
    Sender,
    VirtualChannelTxMap,
};
use satrs::spacepackets::ecss::PusError;
use vstd::prelude::*;

verus! {

/// The virtual channel that telemetry goes out on where nothing else is said.
pub const DEFAULT_TM_VC: u8 = 0;

/// The service whose telemetry reports the verification of telecommands.
pub const VERIFICATION_SERVICE: u8 = 1;

/// The failure code of a completion that failed at once.
pub const COMPLETION_FAILED: u8 = 1;

/// Why a service could not read a command from a telecommand.
#[derive(Debug, Clone, Copy, PartialEq, Eq, Structural)]
pub enum CommandParseError {
    UnknownSubservice(u8),
    Other,
}

pub type CommandParseResult<T> = Result<T, CommandParseError>;

/// Why a telecommand was not accepted.
#[derive(Debug)]
pub enum AcceptanceError {
    /// The bytes are no PUS telecommand.
    PusError(PusError),
    /// The telecommand is meant for another application.
    UnknownApid(u16),
    /// The telecommand is meant for another service.
    UnknownService(u8),
    UnknownSubservice(u8),
    /// The service could not read its command from the telecommand.
    CommandParseError(CommandParseError),
    ArgumentError,
    ServiceDisconnected,
    SendVerificationTmFailed,
}

impl AcceptanceError {
    /// The number that stands for the kind of error in a verification report.
    pub open spec fn code(&self) -> u8 {
        match self {
            AcceptanceError::PusError(_) => 1,
            AcceptanceError::UnknownApid(_) => 2,
            AcceptanceError::UnknownService(_) => 3,
            AcceptanceError::UnknownSubservice(_) => 4,
            AcceptanceError::CommandParseError(_) => 5,
            AcceptanceError::ArgumentError => 6,
            AcceptanceError::ServiceDisconnected => 7,
            AcceptanceError::SendVerificationTmFailed => 8,
        }
    }

    /// The number that stands for the kind of error in a verification report.
    pub fn failure_code(&self) -> (tag: u8)
        ensures
            tag == self.code(),
            1 <= tag <= 8,
    {
        match self {
            AcceptanceError::PusError(_) => 1,
            AcceptanceError::UnknownApid(_) => 2,
            AcceptanceError::UnknownService(_) => 3,
            AcceptanceError::UnknownSubservice(_) => 4,
            AcceptanceError::CommandParseError(_) => 5,
            AcceptanceError::ArgumentError => 6,
            AcceptanceError::ServiceDisconnected => 7,
            AcceptanceError::SendVerificationTmFailed => 8,
        }
    }
}

/// What became of a command that was accepted.
#[derive(Debug, Clone, Copy, PartialEq, Eq, Structural)]
pub enum CommandExecutionStatus {
    /// The task has been started and has not finished.
    Started,
    /// The task has been started and has finished with success.
    Completed,
    /// The task could not be started, or was started and failed at once.
    Failed,
}

pub type AcceptanceResult = Result<CommandExecutionStatus, AcceptanceError>;

/// The state of a telecommand that has been registered and not yet accepted.
#[derive(Debug, Clone, Copy)]
pub struct TcStateNone {}

/// The state of a telecommand that has been accepted.
#[derive(Debug, Clone, Copy)]
pub struct TcStateAccepted {}

/// The state of a telecommand whose execution has started.
#[derive(Debug, Clone, Copy)]
pub struct TcStateStarted {}

/// Stands for a telecommand in one state of its verification. A report consumes
/// the token of the state it leaves and hands out the token of the state it
/// enters, so that the reports of one telecommand can only come in order.
#[derive(Debug)]
pub struct VerificationToken<STATE> {
    request_id: u32,
    state: STATE,
}

impl<STATE> VerificationToken<STATE> {
    /// The request identifier of the telecommand.
    pub closed spec fn id(&self) -> u32 {
        self.request_id
    }

    /// The request identifier of the telecommand.
    pub fn request_id(&self) -> (id: u32)
        ensures
            id == self.id(),
    {
        self.request_id
    }
}

/// The telemetry of a command that was executed at once: a start report, then a
/// completion report of success or of failure.
pub open spec fn completed_at_once(request_id: u32, success: bool) -> Seq<TmContent> {
    seq![
        verification_success(3, request_id),
        if success {
            verification_success(7, request_id)
        } else {
            verification_failure(8, request_id, COMPLETION_FAILED, Seq::empty())
        },
    ]
}

/// Whether `report` is a verification report of failure with the given subservice
/// for the given telecommand, whatever its code and data.
pub open spec fn is_failure_report(report: TmContent, subservice: u8, request_id: u32) -> bool {
    &&& report.service == 1
    &&& report.subservice == subservice
    &&& report.source_data.len() >= 5
    &&& report.source_data.take(4) == success_report(request_id)
}

/// Whether `trace` is the telemetry that the execution of an accepted telecommand
/// may leave behind when it ends with `status`:
/// a start report alone where the task goes on; a start report and a completion
/// report of success, and then telemetry of other services, where it completed; a
/// start report of failure, or a start report and a completion report of failure,
/// where it failed.
pub open spec fn execution_trace(
    trace: Seq<TmContent>,
    request_id: u32,
    status: CommandExecutionStatus,
) -> bool {
    match status {
        CommandExecutionStatus::Started => trace == seq![verification_success(3, request_id)],
        CommandExecutionStatus::Completed => {
            &&& trace.len() >= 2
            &&& trace[0] == verification_success(3, request_id)
            &&& trace[1] == verification_success(7, request_id)
            &&& forall|i: int| 2 <= i < trace.len() ==> (#[trigger] trace[i]).service != 1
        },
        CommandExecutionStatus::Failed => {
            ||| trace.len() == 1 && is_failure_report(trace[0], 4, request_id)
            ||| trace.len() == 2 && trace[0] == verification_success(3, request_id)
                && is_failure_report(trace[1], 8, request_id)
        },
    }
}

/// What a service tells about itself and where its telemetry goes.
pub struct PusServiceBase {
    pub apid: u16,
    pub service: u8,
    pub component_id: u64,
    pub timestamp_helper: TimestampHelper,
    pub tm_sender: RccnEcssTmSender,
}

/// The data of a telemetry packet that answers a command.
pub struct SubserviceTmData {
    pub subservice: u8,
    pub data: Vec<u8>,
}

impl PusServiceBase {
    /// The identifier fits its field, the service is not the verification service,
    /// whose reports the base sends itself, the sender's queue is in order, and
    /// every packet in it is one of this application.
    pub open spec fn wf(&self) -> bool {
        &&& self.apid <= MAX_APID
        &&& self.service != VERIFICATION_SERVICE
        &&& self.tm_sender.wf()
        &&& forall|i: int|
            0 <= i < self.tm_sender.sent@.len() ==> (#[trigger] self.tm_sender.sent@[i]).apid
                == self.apid
    }

    /// Whether the queue of this base is that of `before` with one packet more: the
    /// packet of this application that reports `content`, with the message counter
    /// and the time stamp that `before` had.
    pub open spec fn queued(&self, before: &PusServiceBase, content: TmContent) -> bool {
        &&& self.tm_sender.sent@.len() == before.tm_sender.sent@.len() + 1
        &&& self.tm_sender.sent@.drop_last() == before.tm_sender.sent@
        &&& self.tm_sender.sent@.last().is_packet(
            before.apid,
            content.service,
            content.subservice,
            before.tm_sender.msg_counter,
            before.timestamp_helper.bytes(),
            content.source_data,
        )
    }

    /// The header of a verification report for the telecommand `request_id`.
    fn report_header(&self, request_id: u32) -> (header: ReportHeader)
        requires
            self.apid <= MAX_APID,
        ensures
            header.wf(),
            header.apid == self.apid,
            header.seq_count == SEQUENCE_COUNT,
            header.dest_id == TM_DESTINATION,
            header.request_id == request_id,
            header.msg_counter == self.tm_sender.msg_counter,
    {
        ReportHeader {
            apid: self.apid,
            seq_count: SEQUENCE_COUNT,
            dest_id: TM_DESTINATION,
            request_id,
            msg_counter: self.tm_sender.msg_counter,
        }
    }

    /// What the queued telemetry reports, oldest first.
    pub open spec fn log(&self) -> Seq<TmContent> {
        self.tm_sender.log()
    }

    /// Whether `other` is this base but for time stamp, message counter and queue.
    pub open spec fn same_service(&self, other: &PusServiceBase) -> bool {
        &&& self.apid == other.apid
        &&& self.service == other.service
        &&& self.component_id == other.component_id
        &&& self.tm_sender.channel == other.tm_sender.channel
    }

    /// Whether this base is `before` with telemetry added: the service is the same,
    /// the queue has grown at its end, and the message counter has counted the
    /// packets that were added.
    pub open spec fn extends(&self, before: &PusServiceBase) -> bool {
        &&& self.same_service(before)
        &&& before.tm_sender.sent@.len() <= self.tm_sender.sent@.len()
        &&& self.tm_sender.sent@.take(before.tm_sender.sent@.len() as int)
            == before.tm_sender.sent@
        &&& self.tm_sender.msg_counter == counter_after(
            before.tm_sender.msg_counter,
            (self.tm_sender.sent@.len() - before.tm_sender.sent@.len()) as nat,
        )
    }

    /// What is written to the queue leaves in the order in which it was written:
    /// a base that extends another holds what the other's queue reported, in the
    /// same order, in front of what was written since.
    pub proof fn lemma_extends_log(&self, before: &PusServiceBase)
        requires
            self.extends(before),
        ensures
            before.log().len() <= self.log().len(),
            self.log().take(before.log().len() as int) == before.log(),
    {
        let n = before.tm_sender.sent@.len() as int;
        assert(contents(self.tm_sender.sent@).take(n) =~= contents(self.tm_sender.sent@.take(n)));
    }

    /// Extending is transitive.
    pub proof fn lemma_extends_trans(&self, middle: &PusServiceBase, before: &PusServiceBase)
        requires
            self.extends(middle),
            middle.extends(before),
        ensures
            self.extends(before),
    {
        let a = before.tm_sender.sent@.len() as int;
        let b = middle.tm_sender.sent@.len() as int;
        let c = self.tm_sender.sent@.len() as int;
        assert(self.tm_sender.sent@.take(a) =~= self.tm_sender.sent@.take(b).take(a));
        lemma_counter_after_add(before.tm_sender.msg_counter, (b - a) as nat, (c - b) as nat);
    }

    /// A queue that grew by one packet of this application at its end, with the
    /// counter counted on by one, extends the queue before and is in order.
    proof fn lemma_extends_by_one(&self, before: &PusServiceBase)
        requires
            before.wf(),
            self.tm_sender.wf(),
            self.same_service(before),
            self.tm_sender.sent@.len() == before.tm_sender.sent@.len() + 1,
            self.tm_sender.sent@.drop_last() == before.tm_sender.sent@,
            self.tm_sender.sent@.last().apid == self.apid,
            self.tm_sender.msg_counter == next_counter(before.tm_sender.msg_counter),
        ensures
            self.extends(before),
            self.wf(),
    {
        lemma_counter_after_add(before.tm_sender.msg_counter, 0, 1);
        assert(self.tm_sender.sent@.take(before.tm_sender.sent@.len() as int)
            =~= self.tm_sender.sent@.drop_last());
        assert forall|i: int| 0 <= i < self.tm_sender.sent@.len() implies (
        #[trigger] self.tm_sender.sent@[i]).apid == self.apid by {
            if i < before.tm_sender.sent@.len() {
                assert(self.tm_sender.sent@[i] == self.tm_sender.sent@.drop_last()[i]);
            }
        }
    }

    /// A base whose queue and counter are those of another extends it.
    proof fn lemma_extends_same(&self, before: &PusServiceBase)
        requires
            self.same_service(before),
            self.tm_sender.sent@ == before.tm_sender.sent@,
            self.tm_sender.msg_counter == before.tm_sender.msg_counter,
        ensures
            self.extends(before),
            before.wf() ==> self.wf(),
    {
        lemma_counter_after_add(before.tm_sender.msg_counter, 0, 0);
        assert(self.tm_sender.sent@.take(before.tm_sender.sent@.len() as int)
            =~= self.tm_sender.sent@);
    }

    /// A base whose telemetry goes to virtual channel 0 of `vc_map`.
    pub fn new(apid: u16, service: u8, component_id: u64, vc_map: &VirtualChannelTxMap) -> (base:
        Self)
        requires
            apid <= MAX_APID,
            service != VERIFICATION_SERVICE,
            vc_map@.contains_key(DEFAULT_TM_VC),
        ensures
            base.wf(),
            base.apid == apid,
            base.service == service,
            base.component_id == component_id,
            base.tm_sender.channel == vc_map@[DEFAULT_TM_VC],
            base.tm_sender.msg_counter == 0,
            base.tm_sender.sent@.len() == 0,
            base.log() == Seq::<TmContent>::empty(),
            base.timestamp_helper.bytes() == Seq::new(8, |i: int| 0u8),
    {
        broadcast use vstd::std_specs::hash::group_hash_axioms;

        let channel = *vc_map.get(&DEFAULT_TM_VC).unwrap();
        PusServiceBase::new_reply(apid, service, component_id, channel, 0)
    }

    /// A base whose telemetry goes to `channel` and whose next packet has the
    /// counter `msg_counter`.
    pub fn new_reply(apid: u16, service: u8, component_id: u64, channel: Sender, msg_counter: u16) -> (base:
        Self)
        requires
            apid <= MAX_APID,
            service != VERIFICATION_SERVICE,
        ensures
            base.wf(),
            base.apid == apid,
            base.service == service,
            base.component_id == component_id,
            base.tm_sender.channel == channel,
            base.tm_sender.msg_counter == msg_counter,
            base.tm_sender.sent@.len() == 0,
            base.log() == Seq::<TmContent>::empty(),
            base.timestamp_helper.bytes() == Seq::new(8, |i: int| 0u8),
    {
        let base = PusServiceBase {
            apid,
            service,
            component_id,
            timestamp_helper: TimestampHelper::new(),
            tm_sender: RccnEcssTmSender::new(channel, msg_counter),
        };
        assert(base.log() =~= Seq::<TmContent>::empty());
        base
    }

    /// The sender that the base's telemetry goes through.
    pub fn get_default_tm_sender(&self) -> (sender: &RccnEcssTmSender)
        ensures
            sender == &self.tm_sender,
    {
        &self.tm_sender
    }

    /// Registers a telecommand for verification.
    pub fn add_tc(&self, tc: &PusTc) -> (token: VerificationToken<TcStateNone>)
        ensures
            token.id() == tc.request_id,
    {
        VerificationToken { request_id: tc.request_id, state: TcStateNone {  } }
    }

    /// Reports that the telecommand was accepted: a packet of service 1,
    /// subservice 1.
    pub fn send_acceptance_success(&mut self, token: VerificationToken<TcStateNone>) -> (r: Result<
        VerificationToken<TcStateAccepted>,
        EcssTmtcError,
    >)
        requires
            old(self).wf(),
        ensures
            final(self).wf(),
            final(self).extends(old(self)),
            final(self).timestamp_helper == old(self).timestamp_helper,
            final(self).tm_sender.msg_counter == next_counter(old(self).tm_sender.msg_counter),
            final(self).log() == old(self).log().push(verification_success(1, token.id())) && final(self).queued(old(self), verification_success(1, token.id())),
            r matches Ok(accepted) && accepted.id() == token.id(),
    {
        let bytes = write_acceptance_success(
            &self.report_header(token.request_id),
            self.timestamp_helper.stamp(),
            REPORT_SOURCE_CAPACITY,
        );
        let source = crate::endian::to_be_vec(token.request_id as u64, 4);
        self.tm_sender.enqueue(self.apid, 1, 1, self.timestamp_helper.stamp(), source.as_slice(), bytes);
        proof {
            self.lemma_extends_by_one(old(self));
        }
        Ok(VerificationToken { request_id: token.request_id, state: TcStateAccepted {  } })
    }

    /// Reports that the telecommand was not accepted: a packet of service 1,
    /// subservice 2, with the failure code and the failure data.
    ///
    /// Nothing is reported where the failure data is longer than a report takes.
    pub fn send_acceptance_failure(
        &mut self,
        token: VerificationToken<TcStateNone>,
        failure_code: u8,
        failure_data: &[u8],
    ) -> (r: Result<(), EcssTmtcError>)
        requires
            old(self).wf(),
        ensures
            final(self).wf(),
            final(self).extends(old(self)),
            final(self).timestamp_helper == old(self).timestamp_helper,
            r.is_ok() <==> failure_data@.len() <= MAX_FAILURE_DATA,
            r.is_ok() ==> final(self).tm_sender.msg_counter == next_counter(
                old(self).tm_sender.msg_counter,
            ) && final(self).log() == old(self).log().push(
                verification_failure(2, token.id(), failure_code, failure_data@),
            ) && final(self).queued(old(self), verification_failure(2, token.id(), failure_code, failure_data@)),
            r.is_err() ==> final(self).tm_sender.msg_counter == old(self).tm_sender.msg_counter
                && final(self).log() == old(self).log(),
    {
        if failure_data.len() > MAX_FAILURE_DATA {
            proof {
                self.lemma_extends_same(old(self));
            }
            return Err(EcssTmtcError::CantSendDirectTm);
        }
        let bytes = write_acceptance_failure(
            &self.report_header(token.request_id),
            self.timestamp_helper.stamp(),
            REPORT_SOURCE_CAPACITY,
            failure_code,
            failure_data,
        );
        let source = failure_source(token.request_id, failure_code, failure_data);
        self.tm_sender.enqueue(self.apid, 1, 2, self.timestamp_helper.stamp(), source.as_slice(), bytes);
        proof {
            self.lemma_extends_by_one(old(self));
        }
        Ok(())
    }

    /// Reports that the execution has started: a packet of service 1, subservice 3.
    pub fn send_start_success(&mut self, token: VerificationToken<TcStateAccepted>) -> (r: Result<
        VerificationToken<TcStateStarted>,
        EcssTmtcError,
    >)
        requires
            old(self).wf(),
        ensures
            final(self).wf(),
            final(self).extends(old(self)),
            final(self).timestamp_helper == old(self).timestamp_helper,
            final(self).tm_sender.msg_counter == next_counter(old(self).tm_sender.msg_counter),
            final(self).log() == old(self).log().push(verification_success(3, token.id())) && final(self).queued(old(self), verification_success(3, token.id())),
            r matches Ok(started) && started.id() == token.id(),
    {
        let bytes = write_start_success(
            &self.report_header(token.request_id),
            self.timestamp_helper.stamp(),
            REPORT_SOURCE_CAPACITY,
        );
        let source = crate::endian::to_be_vec(token.request_id as u64, 4);
        self.tm_sender.enqueue(self.apid, 1, 3, self.timestamp_helper.stamp(), source.as_slice(), bytes);
        proof {
            self.lemma_extends_by_one(old(self));
        }
        Ok(VerificationToken { request_id: token.request_id, state: TcStateStarted {  } })
    }

    /// Reports that the execution could not start: a packet of service 1,
    /// subservice 4, with the failure code and the failure data.
    ///
    /// Nothing is reported where the failure data is longer than a report takes.
    pub fn send_start_failure(
        &mut self,
        token: VerificationToken<TcStateAccepted>,
        failure_code: u8,
        failure_data: &[u8],
    ) -> (r: Result<(), EcssTmtcError>)
        requires
            old(self).wf(),
        ensures
            final(self).wf(),
            final(self).extends(old(self)),
            final(self).timestamp_helper == old(self).timestamp_helper,
            r.is_ok() <==> failure_data@.len() <= MAX_FAILURE_DATA,
            r.is_ok() ==> final(self).tm_sender.msg_counter == next_counter(
                old(self).tm_sender.msg_counter,
            ) && final(self).log() == old(self).log().push(
                verification_failure(4, token.id(), failure_code, failure_data@),
            ) && final(self).queued(old(self), verification_failure(4, token.id(), failure_code, failure_data@)),
            r.is_err() ==> final(self).tm_sender.msg_counter == old(self).tm_sender.msg_counter
                && final(self).log() == old(self).log(),
    {
        if failure_data.len() > MAX_FAILURE_DATA {
            proof {
                self.lemma_extends_same(old(self));
            }
            return Err(EcssTmtcError::CantSendDirectTm);
        }
        let bytes = write_start_failure(
            &self.report_header(token.request_id),
            self.timestamp_helper.stamp(),
            REPORT_SOURCE_CAPACITY,
            failure_code,
            failure_data,
        );
        let source = failure_source(token.request_id, failure_code, failure_data);
        self.tm_sender.enqueue(self.apid, 1, 4, self.timestamp_helper.stamp(), source.as_slice(), bytes);
        proof {
            self.lemma_extends_by_one(old(self));
        }
        Ok(())
    }

    /// Reports that the execution has completed: a packet of service 1,
    /// subservice 7.
    pub fn send_completion_success(&mut self, token: VerificationToken<TcStateStarted>) -> (r: Result<
        (),
        EcssTmtcError,
    >)
        requires
            old(self).wf(),
        ensures
            final(self).wf(),
            final(self).extends(old(self)),
            final(self).timestamp_helper == old(self).timestamp_helper,
            final(self).tm_sender.msg_counter == next_counter(old(self).tm_sender.msg_counter),
            final(self).log() == old(self).log().push(verification_success(7, token.id())) && final(self).queued(old(self), verification_success(7, token.id())),
            r.is_ok(),
    {
        let bytes = write_completion_success(
            &self.report_header(token.request_id),
            self.timestamp_helper.stamp(),
            REPORT_SOURCE_CAPACITY,
        );
        let source = crate::endian::to_be_vec(token.request_id as u64, 4);
        self.tm_sender.enqueue(self.apid, 1, 7, self.timestamp_helper.stamp(), source.as_slice(), bytes);
        proof {
            self.lemma_extends_by_one(old(self));
        }
        Ok(())
    }

    /// Reports that the execution has failed: a packet of service 1, subservice 8,
    /// with the failure code and the failure data.
    ///
    /// Nothing is reported where the failure data is longer than a report takes.
    pub fn send_completion_failure(
        &mut self,
        token: VerificationToken<TcStateStarted>,
        failure_code: u8,
        failure_data: &[u8],
    ) -> (r: Result<(), EcssTmtcError>)
        requires
            old(self).wf(),
        ensures
            final(self).wf(),
            final(self).extends(old(self)),
            final(self).timestamp_helper == old(self).timestamp_helper,
            r.is_ok() <==> failure_data@.len() <= MAX_FAILURE_DATA,
            r.is_ok() ==> final(self).tm_sender.msg_counter == next_counter(
                old(self).tm_sender.msg_counter,
            ) && final(self).log() == old(self).log().push(
                verification_failure(8, token.id(), failure_code, failure_data@),
            ) && final(self).queued(old(self), verification_failure(8, token.id(), failure_code, failure_data@)),
            r.is_err() ==> final(self).tm_sender.msg_counter == old(self).tm_sender.msg_counter
                && final(self).log() == old(self).log(),
    {
        if failure_data.len() > MAX_FAILURE_DATA {
            proof {
                self.lemma_extends_same(old(self));
            }
            return Err(EcssTmtcError::CantSendDirectTm);
        }
        let bytes = write_completion_failure(
            &self.report_header(token.request_id),
            self.timestamp_helper.stamp(),
            REPORT_SOURCE_CAPACITY,
            failure_code,
            failure_data,
        );
        let source = failure_source(token.request_id, failure_code, failure_data);
        self.tm_sender.enqueue(self.apid, 1, 8, self.timestamp_helper.stamp(), source.as_slice(), bytes);
        proof {
            self.lemma_extends_by_one(old(self));
        }
        Ok(())
    }

    /// What a telemetry packet of this service with the given subservice and source
    /// data reports.
    pub open spec fn tm_content(&self, subservice: u8, src_data: Seq<u8>) -> TmContent {
        TmContent { service: self.service, subservice, source_data: src_data }
    }

    /// Describes a telemetry packet of this service with the given subservice and
    /// source data.
    pub fn create_tm(&self, subservice: u8, src_data: &[u8]) -> (tm: SubserviceTmData)
        ensures
            tm.subservice == subservice,
            tm.data@ == src_data@,
    {
        SubserviceTmData { subservice, data: crate::types::copy_bytes(src_data) }
    }

    /// Sends a telemetry packet of this service, stamped with the time of the last
    /// update and with the message counter.
    ///
    /// The packet cannot be sent where its data is too long for one packet.
    pub fn send_tm(&mut self, tm: &SubserviceTmData) -> (r: Result<(), EcssTmtcError>)
        requires
            old(self).wf(),
        ensures
            final(self).wf(),
            final(self).extends(old(self)),
            final(self).timestamp_helper == old(self).timestamp_helper,
            r.is_ok() <==> 8 + tm.data@.len() <= MAX_TM_PAYLOAD,
            r.is_ok() ==> final(self).tm_sender.msg_counter == next_counter(
                old(self).tm_sender.msg_counter,
            ) && final(self).log() == old(self).log().push(
                old(self).tm_content(tm.subservice, tm.data@),
            ) && final(self).queued(old(self), old(self).tm_content(tm.subservice, tm.data@)),
            r.is_err() ==> final(self).tm_sender.msg_counter == old(self).tm_sender.msg_counter
                && final(self).log() == old(self).log(),
    {
        let r = self.tm_sender.send_tm(
            self.apid,
            self.service,
            tm.subservice,
            self.timestamp_helper.stamp(),
            tm.data.as_slice(),
        );
        proof {
            if r.is_ok() {
                self.lemma_extends_by_one(old(self));
            } else {
                self.lemma_extends_same(old(self));
            }
        }
        r
    }
}

/// The source data of a verification report of failure.
fn failure_source(request_id: u32, code: u8, data: &[u8]) -> (source: Vec<u8>)
    ensures
        source@ == crate::packets::failure_report(request_id, code, data@),
{
    let mut source = crate::endian::to_be_vec(request_id as u64, 4);
    source.push(code);
    let ghost head = source@;
    let mut i: usize = 0;
    while i < data.len()
        invariant
            i <= data.len(),
            source@ =~= head + data@.take(i as int),
        decreases data.len() - i,
    {
        source.push(data[i]);
        i = i + 1;
    }
    proof {
        assert(data@.take(data@.len() as int) =~= data@);
    }
    source
}

/// A log that holds `begun` in front and `rest` behind it is the two, joined.
pub proof fn lemma_log_joined(after: Seq<TmContent>, begun: Seq<TmContent>, rest: Seq<TmContent>)
    requires
        begun.len() <= after.len(),
        after.take(begun.len() as int) == begun,
        after.skip(begun.len() as int) == rest,
    ensures
        after == begun + rest,
{
    assert(after.skip(begun.len() as int).len() == after.len() - begun.len());
    assert forall|i: int| 0 <= i < after.len() implies after[i] == (begun + rest)[i] by {
        if i < begun.len() {
            assert(after[i] == after.take(begun.len() as int)[i]);
        } else {
            assert(after[i] == after.skip(begun.len() as int)[i - begun.len()]);
        }
    }
    assert(after =~= begun + rest);
}

/// A log that holds `begun` and one report more is `begun` with that report
/// joined.
pub proof fn lemma_log_pushed(after: Seq<TmContent>, begun: Seq<TmContent>)
    requires
        after.len() == begun.len() + 1,
        after.drop_last() == begun,
    ensures
        after == begun.push(after.last()),
{
    assert(after =~= begun.push(after.last()));
}

/// A telecommand that was accepted and waits for its execution.
pub struct AcceptedTc {
    pub token: VerificationToken<TcStateAccepted>,
}

/// A telecommand whose execution has started and has not been reported complete.
pub struct StartedTc {
    pub token: VerificationToken<TcStateStarted>,
}

/// The telemetry of a task that was run at once and, where it gave data that fits
/// one packet, answered with that data in a packet of the service.
pub open spec fn answered_at_once(
    service: u8,
    request_id: u32,
    answer: Option<SubserviceTmData>,
) -> Seq<TmContent> {
    match answer {
        Some(tm) if 8 + tm.data@.len() <= MAX_TM_PAYLOAD => completed_at_once(
            request_id,
            true,
        ).push(TmContent { service, subservice: tm.subservice, source_data: tm.data@ }),
        _ => completed_at_once(request_id, false),
    }
}

/// The status of a task that was run at once and answers with data.
pub open spec fn answered_status(answer: Option<SubserviceTmData>) -> CommandExecutionStatus {
    match answer {
        Some(tm) if 8 + tm.data@.len() <= MAX_TM_PAYLOAD => CommandExecutionStatus::Completed,
        _ => CommandExecutionStatus::Failed,
    }
}

impl AcceptedTc {
    pub fn new(token: VerificationToken<TcStateAccepted>) -> (tc: Self)
        ensures
            tc.token == token,
    {
        AcceptedTc { token }
    }

    /// Reports that the execution has started.
    pub fn start(self, base: &mut PusServiceBase) -> (started: StartedTc)
        requires
            old(base).wf(),
        ensures
            final(base).wf(),
            final(base).extends(old(base)),
            final(base).timestamp_helper == old(base).timestamp_helper,
            final(base).tm_sender.msg_counter == next_counter(old(base).tm_sender.msg_counter),
            final(base).log() == old(base).log().push(verification_success(3, self.token.id())),
            final(base).queued(old(base), verification_success(3, self.token.id())),
            started.token.id() == self.token.id(),
    {
        match base.send_start_success(self.token) {
            Ok(token) => StartedTc { token },
            Err(_) => vstd::pervasive::unreached(),
        }
    }

    /// Reports that the execution could not start, with the given failure code.
    pub fn fail_start(self, base: &mut PusServiceBase, failure_code: u8) -> (r: AcceptanceResult)
        requires
            old(base).wf(),
        ensures
            final(base).wf(),
            final(base).extends(old(base)),
            final(base).timestamp_helper == old(base).timestamp_helper,
            final(base).log() == old(base).log().push(
                verification_failure(4, self.token.id(), failure_code, Seq::empty()),
            ),
            final(base).queued(
                old(base),
                verification_failure(4, self.token.id(), failure_code, Seq::empty()),
            ),
            r == Ok::<CommandExecutionStatus, AcceptanceError>(CommandExecutionStatus::Failed),
    {
        let no_data: Vec<u8> = Vec::new();
        proof {
            assert(no_data@ =~= Seq::<u8>::empty());
        }
        let _ = base.send_start_failure(self.token, failure_code, no_data.as_slice());
        Ok(CommandExecutionStatus::Failed)
    }

    /// Runs a task at once: reports the start, runs `f`, and reports completion
    /// with success where `f` returns `true` and with failure code 1 where it
    /// returns `false`.
    pub fn handle<F: FnOnce() -> bool>(self, base: &mut PusServiceBase, f: F) -> (r:
        AcceptanceResult)
        requires
            old(base).wf(),
            f.requires(()),
        ensures
            final(base).wf(),
            final(base).extends(old(base)),
            final(base).timestamp_helper == old(base).timestamp_helper,
            r matches Ok(status) && status != CommandExecutionStatus::Started && f.ensures(
                (),
                status == CommandExecutionStatus::Completed,
            ) && final(base).log() == old(base).log() + completed_at_once(
                self.token.id(),
                status == CommandExecutionStatus::Completed,
            ),
            forall|i: int|
                old(base).tm_sender.sent@.len() <= i < final(base).tm_sender.sent@.len() ==> (
                #[trigger] final(base).tm_sender.sent@[i]).timestamp@ == old(
                    base,
                ).timestamp_helper.bytes(),
    {
        let ghost before = base.log();
        let ghost request_id = self.token.id();
        let started = self.start(base);
        let ghost begun = base.log();
        let ghost middle = *base;
        let success = f();
        let r = started.complete(base, success);
        proof {
            base.lemma_extends_trans(&middle, old(base));
            let after = base.log();
            lemma_log_pushed(after, begun);
            assert(after =~= before + completed_at_once(request_id, success));
        }
        r
    }

    /// Runs a task at once that answers with telemetry: reports the start, runs
    /// `f`, and, where `f` returns data, reports completion with success and
    /// sends the data as a packet of the service. Where `f` returns an error, or
    /// data too long for one packet, completion is reported with failure code 1.
    pub fn handle_with_tm<E, F: FnOnce() -> Result<SubserviceTmData, E>>(
        self,
        base: &mut PusServiceBase,
        f: F,
    ) -> (r: AcceptanceResult)
        requires
            old(base).wf(),
            f.requires(()),
        ensures
            final(base).wf(),
            final(base).extends(old(base)),
            exists|outcome: Result<SubserviceTmData, E>|
                {
                    &&& f.ensures((), outcome)
                    &&& r == Ok::<CommandExecutionStatus, AcceptanceError>(
                        answered_status(outcome.ok()),
                    )
                    &&& final(base).log() == old(base).log() + answered_at_once(
                        old(base).service,
                        self.token.id(),
                        outcome.ok(),
                    )
                },
    {
        let ghost before = base.log();
        let ghost request_id = self.token.id();
        let started = self.start(base);
        let ghost begun = base.log();
        let ghost middle = *base;
        let outcome = f();
        let ghost witness = outcome;
        let r = started.complete_with_tm(base, outcome);
        proof {
            base.lemma_extends_trans(&middle, old(base));
            let after = base.log();
            let answered = answered_at_once(old(base).service, request_id, witness.ok());
            assert(answered[0] == verification_success(3, request_id));
            lemma_log_joined(after, begun, answered.skip(1));
            assert(after =~= before + answered);
            assert(f.ensures((), witness));
        }
        r
    }
}

impl StartedTc {
    /// Reports completion: with success where `success` holds, with failure code 1
    /// where it does not.
    pub fn complete(self, base: &mut PusServiceBase, success: bool) -> (r: AcceptanceResult)
        requires
            old(base).wf(),
        ensures
            final(base).wf(),
            final(base).extends(old(base)),
            final(base).tm_sender.msg_counter == next_counter(old(base).tm_sender.msg_counter),
            final(base).log().drop_last() == old(base).log(),
            final(base).log().len() == old(base).log().len() + 1,
            final(base).log().last() == completed_at_once(self.token.id(), success)[1],
            final(base).timestamp_helper == old(base).timestamp_helper,
            final(base).queued(old(base), completed_at_once(self.token.id(), success)[1]),
            r == Ok::<CommandExecutionStatus, AcceptanceError>(
                if success {
                    CommandExecutionStatus::Completed
                } else {
                    CommandExecutionStatus::Failed
                },
            ),
    {
        let ghost before = base.log();
        if success {
            let _ = base.send_completion_success(self.token);
            proof {
                assert(base.log().drop_last() =~= before);
            }
            Ok(CommandExecutionStatus::Completed)
        } else {
            let no_data: Vec<u8> = Vec::new();
            proof {
                assert(no_data@ =~= Seq::<u8>::empty());
            }
            let _ = base.send_completion_failure(self.token, COMPLETION_FAILED, no_data.as_slice());
            proof {
                assert(base.log().drop_last() =~= before);
            }
            Ok(CommandExecutionStatus::Failed)
        }
    }

    /// Reports completion of a task that answers with telemetry: where `outcome`
    /// holds data that fits one packet, completion is reported with success and the
    /// data is sent as a packet of the service; else completion is reported with
    /// failure code 1.
    pub fn complete_with_tm<E>(
        self,
        base: &mut PusServiceBase,
        outcome: Result<SubserviceTmData, E>,
    ) -> (r: AcceptanceResult)
        requires
            old(base).wf(),
        ensures
            final(base).wf(),
            final(base).extends(old(base)),
            r == Ok::<CommandExecutionStatus, AcceptanceError>(answered_status(outcome.ok())),
            final(base).log().len() >= old(base).log().len(),
            final(base).log().take(old(base).log().len() as int) == old(base).log(),
            final(base).log().skip(old(base).log().len() as int) == answered_at_once(
                old(base).service,
                self.token.id(),
                outcome.ok(),
            ).skip(1),
    {
        let ghost before = base.log();
        let ghost request_id = self.token.id();
        let ghost answer = outcome.ok();
        match outcome {
            Ok(tm_data) if tm_data.data.len() <= MAX_TM_PAYLOAD - 8 => {
                let _ = base.send_completion_success(self.token);
                let ghost middle = *base;
                base.timestamp_helper.update_from_now();
                let ghost stamped = *base;
                let _ = base.send_tm(&tm_data);
                proof {
                    stamped.lemma_extends_same(&middle);
                    stamped.lemma_extends_trans(&middle, old(base));
                    base.lemma_extends_trans(&stamped, old(base));
                    assert(base.log().take(before.len() as int) =~= before);
                    assert(base.log().skip(before.len() as int) =~= answered_at_once(
                        old(base).service,
                        request_id,
                        answer,
                    ).skip(1));
                }
                Ok(CommandExecutionStatus::Completed)
            },
            _ => {
                let no_data: Vec<u8> = Vec::new();
                proof {
                    assert(no_data@ =~= Seq::<u8>::empty());
                }
                let _ = base.send_completion_failure(
                    self.token,
                    COMPLETION_FAILED,
                    no_data.as_slice(),
                );
                proof {
                    assert(base.log().take(before.len() as int) =~= before);
                    assert(base.log().skip(before.len() as int) =~= answered_at_once(
                        old(base).service,
                        request_id,
                        answer,
                    ).skip(1));
                }
                Ok(CommandExecutionStatus::Failed)
            },
        }
    }
}

/// A command that a service reads from the application data of a telecommand.
pub trait ServiceCommand: Sized {
    /// Whether the telecommand holds a command, or why it holds none.
    spec fn parse_outcome(tc: PusTcView) -> Result<(), CommandParseError>;

    /// Whether this is the command that the telecommand holds.
    spec fn is_command_of(&self, tc: PusTcView) -> bool;

    /// Reads the command from the telecommand.
    fn from_pus_tc(tc: &PusTc) -> (r: CommandParseResult<Self>)
        ensures
            r.is_ok() <==> Self::parse_outcome(tc@).is_ok(),
            r matches Err(e) ==> Self::parse_outcome(tc@) == Err::<(), CommandParseError>(e),
            r matches Ok(cmd) ==> cmd.is_command_of(tc@),
    ;
}

/// What a telecommand that is handed to a service leaves behind: the result, and
/// the telemetry `trace` that is queued for it.
///
/// A telecommand for another application or another service leaves no telemetry.
/// A telecommand whose command cannot be read is answered by an acceptance report
/// of failure with code 5 and nothing else. Every other telecommand is answered by
/// an acceptance report of success, followed by what its execution leaves behind.
pub open spec fn handled_tc<C: ServiceCommand>(
    apid: u16,
    service: u8,
    tc: PusTcView,
    r: AcceptanceResult,
    trace: Seq<TmContent>,
) -> bool {
    if tc.apid != apid {
        r == Err::<CommandExecutionStatus, AcceptanceError>(AcceptanceError::UnknownApid(tc.apid))
            && trace.len() == 0
    } else if tc.service != service {
        r == Err::<CommandExecutionStatus, AcceptanceError>(
            AcceptanceError::UnknownService(tc.service),
        ) && trace.len() == 0
    } else {
        match C::parse_outcome(tc) {
            Err(e) => r == Err::<CommandExecutionStatus, AcceptanceError>(
                AcceptanceError::CommandParseError(e),
            ) && trace == seq![verification_failure(2, tc.request_id, 5, Seq::empty())],
            Ok(_) => r matches Ok(status) && trace.len() >= 1 && trace[0] == verification_success(
                1,
                tc.request_id,
            ) && execution_trace(trace.skip(1), tc.request_id, status),
        }
    }
}

/// What bytes that are handed to a service leave behind: bytes that are no
/// telecommand give an error and no telemetry, and a telecommand is handled as
/// [`handled_tc`] says.
pub open spec fn handled<C: ServiceCommand>(
    apid: u16,
    service: u8,
    bytes: Seq<u8>,
    r: AcceptanceResult,
    trace: Seq<TmContent>,
) -> bool {
    match pus_tc_read(bytes) {
        None => r matches Err(AcceptanceError::PusError(_)) && trace.len() == 0,
        Some(tc) => handled_tc::<C>(apid, service, tc, r, trace),
    }
}

/// What a telecommand that is handed to a service makes of the service, beside
/// the result and the telemetry that [`handled_tc`] speaks of.
///
/// A telecommand that is passed over, or whose command cannot be read, leaves the
/// service as it was. Of every other telecommand the command that it holds is
/// executed, once: the service afterwards, the result and the telemetry after the
/// acceptance report are what the service makes of that command.
pub open spec fn served_tc<S: PusService>(
    before: S,
    after: S,
    apid: u16,
    service: u8,
    tc: PusTcView,
    r: AcceptanceResult,
    trace: Seq<TmContent>,
) -> bool {
    if tc.apid != apid || tc.service != service || S::CommandT::parse_outcome(tc).is_err() {
        after == before
    } else {
        exists|cmd: S::CommandT|
            #[trigger] cmd.is_command_of(tc) && S::executed(
                before,
                after,
                cmd,
                tc.request_id,
                service,
                r,
                trace.skip(1),
            )
    }
}

/// A PUS service: it names the commands it takes and executes them.
pub trait PusService: Sized {
    type CommandT: ServiceCommand;

    /// What the execution of an accepted command makes of the service: whether
    /// `after`, `r` and `trace` are the service, the result and the queued
    /// telemetry that follow from the service `before` and the command `cmd` of
    /// the telecommand `request_id`, where `service` is the number under which
    /// the service answers.
    spec fn executed(
        before: Self,
        after: Self,
        cmd: Self::CommandT,
        request_id: u32,
        service: u8,
        r: AcceptanceResult,
        trace: Seq<TmContent>,
    ) -> bool;

    /// Executes a command that was accepted, and reports start and completion
    /// through `base`.
    fn handle_tc(&mut self, base: &mut PusServiceBase, tc: AcceptedTc, cmd: Self::CommandT) -> (r:
        AcceptanceResult)
        requires
            old(base).wf(),
        ensures
            final(base).wf(),
            final(base).extends(old(base)),
            final(base).log().len() >= old(base).log().len(),
            final(base).log().take(old(base).log().len() as int) == old(base).log(),
            r matches Ok(status) && execution_trace(
                final(base).log().skip(old(base).log().len() as int),
                tc.token.id(),
                status,
            ),
            Self::executed(
                *old(self),
                *final(self),
                cmd,
                tc.token.id(),
                old(base).service,
                r,
                final(base).log().skip(old(base).log().len() as int),
            ),
    ;

    /// Handles the bytes of a telecommand: reads them and hands the telecommand to
    /// [`PusService::handle_pus_tc`]. Bytes that are no telecommand are not
    /// answered: the sender is not known.
    ///
    /// Result and telemetry are those of [`handled`]. Bytes that are no telecommand
    /// leave the service as it was, and a telecommand is served as [`served_tc`]
    /// says.
    fn handle_tc_bytes(&mut self, base: &mut PusServiceBase, bytes: &[u8]) -> (r: AcceptanceResult)
        requires
            old(base).wf(),
        ensures
            final(base).wf(),
            final(base).extends(old(base)),
            final(base).log().len() >= old(base).log().len(),
            final(base).log().take(old(base).log().len() as int) == old(base).log(),
            handled::<Self::CommandT>(
                old(base).apid,
                old(base).service,
                bytes@,
                r,
                final(base).log().skip(old(base).log().len() as int),
            ),
            match pus_tc_read(bytes@) {
                None => *final(self) == *old(self),
                Some(tc) => if tc.apid != old(base).apid || tc.service != old(base).service
                    || Self::CommandT::parse_outcome(tc).is_err() {
                    *final(self) == *old(self)
                } else {
                    exists|cmd: Self::CommandT|
                        #[trigger] cmd.is_command_of(tc) && Self::executed(
                            *old(self),
                            *final(self),
                            cmd,
                            tc.request_id,
                            old(base).service,
                            r,
                            final(base).log().skip(old(base).log().len() as int).skip(1),
                        )
                },
            },
    {
        match read_pus_tc(bytes) {
            Err(e) => {
                proof {
                    base.lemma_extends_same(old(base));
                    assert(base.log().skip(base.log().len() as int) =~= Seq::<TmContent>::empty());
                    assert(base.log().take(base.log().len() as int) =~= base.log());
                }
                Err(AcceptanceError::PusError(e))
            },
            Ok(pus_tc) => self.handle_pus_tc(base, &pus_tc),
        }
    }

    /// Handles a telecommand: passes over what is meant for another application or
    /// another service, has the command read, reports acceptance, and hands the
    /// command to [`PusService::handle_tc`].
    ///
    /// Result and telemetry are those of [`handled_tc`], and the service is served
    /// as [`served_tc`] says: it stays as it was where the telecommand is passed
    /// over or holds no command, and else the command that the telecommand holds
    /// is executed.
    fn handle_pus_tc(&mut self, base: &mut PusServiceBase, pus_tc: &PusTc) -> (r: AcceptanceResult)
        requires
            old(base).wf(),
        ensures
            final(base).wf(),
            final(base).extends(old(base)),
            final(base).log().len() >= old(base).log().len(),
            final(base).log().take(old(base).log().len() as int) == old(base).log(),
            handled_tc::<Self::CommandT>(
                old(base).apid,
                old(base).service,
                pus_tc@,
                r,
                final(base).log().skip(old(base).log().len() as int),
            ),
            if pus_tc@.apid != old(base).apid || pus_tc@.service != old(base).service
                || Self::CommandT::parse_outcome(pus_tc@).is_err() {
                *final(self) == *old(self)
            } else {
                exists|cmd: Self::CommandT|
                    #[trigger] cmd.is_command_of(pus_tc@) && Self::executed(
                        *old(self),
                        *final(self),
                        cmd,
                        pus_tc@.request_id,
                        old(base).service,
                        r,
                        final(base).log().skip(old(base).log().len() as int).skip(1),
                    )
            },
    {
        let ghost before = base.log();
        let token = base.add_tc(pus_tc);
        base.timestamp_helper.update_from_now();
        let ghost stamped = *base;
        proof {
            stamped.lemma_extends_same(old(base));
        }
        // Another application may answer: no report from here.
        if pus_tc.apid != base.apid {
            proof {
                assert(base.log().take(before.len() as int) =~= before);
            }
            return Err(AcceptanceError::UnknownApid(pus_tc.apid));
        }
        // Another service of this application may answer: no report from here.
        if pus_tc.service != base.service {
            proof {
                assert(base.log().take(before.len() as int) =~= before);
            }
            return Err(AcceptanceError::UnknownService(pus_tc.service));
        }
        // The telecommand is ours: from here on it is answered.
        let svc_cmd = match Self::CommandT::from_pus_tc(pus_tc) {
            Err(parse_error) => {
                let err = AcceptanceError::CommandParseError(parse_error);
                let no_data: Vec<u8> = Vec::new();
                let _ = base.send_acceptance_failure(token, err.failure_code(), no_data.as_slice());
                proof {
                    base.lemma_extends_trans(&stamped, old(base));
                    assert(no_data@ =~= Seq::<u8>::empty());
                    assert(base.log().take(before.len() as int) =~= before);
                    assert(base.log().skip(before.len() as int) =~= seq![
                        verification_failure(2, pus_tc.request_id, 5, Seq::empty()),
                    ]);
                }
                return Err(err);
            },
            Ok(cmd) => cmd,
        };
        let ghost command = svc_cmd;
        base.timestamp_helper.update_from_now();
        let ghost restamped = *base;
        proof {
            restamped.lemma_extends_same(old(base));
        }
        let sent = base.send_acceptance_success(token);
        let ghost accepted = base.log();
        let ghost accepted_base = *base;
        proof {
            accepted_base.lemma_extends_trans(&restamped, old(base));
        }
        let r = self.handle_accepted(base, sent, svc_cmd);
        proof {
            base.lemma_extends_trans(&accepted_base, old(base));
            let after = base.log();
            assert(after.take(accepted.len() as int) == accepted);
            assert(after.take(before.len() as int) =~= accepted.take(before.len() as int));
            assert(accepted.take(before.len() as int) =~= before);
            let trace = after.skip(before.len() as int);
            assert(trace[0] == after[before.len() as int]);
            assert(after[before.len() as int] == accepted[before.len() as int]);
            assert(trace.skip(1) =~= after.skip(accepted.len() as int));
            assert(command.is_command_of(pus_tc@));
        }
        r
    }

    /// Goes on after the acceptance report: where the report was sent, the command
    /// is handed to [`PusService::handle_tc`]; where it could not be sent, the
    /// command is not executed and nothing more is reported.
    fn handle_accepted(
        &mut self,
        base: &mut PusServiceBase,
        sent: Result<VerificationToken<TcStateAccepted>, EcssTmtcError>,
        cmd: Self::CommandT,
    ) -> (r: AcceptanceResult)
        requires
            old(base).wf(),
        ensures
            final(base).wf(),
            final(base).extends(old(base)),
            final(base).log().len() >= old(base).log().len(),
            final(base).log().take(old(base).log().len() as int) == old(base).log(),
            match sent {
                Err(_) => {
                    &&& r == Err::<CommandExecutionStatus, AcceptanceError>(
                        AcceptanceError::SendVerificationTmFailed,
                    )
                    &&& final(base).log() == old(base).log()
                    &&& *final(self) == *old(self)
                },
                Ok(token) => {
                    &&& r matches Ok(status) && execution_trace(
                        final(base).log().skip(old(base).log().len() as int),
                        token.id(),
                        status,
                    )
                    &&& Self::executed(
                        *old(self),
                        *final(self),
                        cmd,
                        token.id(),
                        old(base).service,
                        r,
                        final(base).log().skip(old(base).log().len() as int),
                    )
                },
            },
    {
        match sent {
            Err(_) => {
                proof {
                    base.lemma_extends_same(old(base));
                    assert(base.log().take(base.log().len() as int) =~= base.log());
                }
                Err(AcceptanceError::SendVerificationTmFailed)
            },
            Ok(accepted_token) => self.handle_tc(base, AcceptedTc::new(accepted_token), cmd),
        }
    }
}

/// The execution started and completed: a start report, a completion report of
/// success, and after them no telemetry of the verification service.
pub open spec fn started_and_completed(trace: Seq<TmContent>, request_id: u32) -> bool {
    &&& trace.len() >= 2
    &&& trace[0] == verification_success(3, request_id)
    &&& trace[1] == verification_success(7, request_id)
    &&& forall|i: int| 2 <= i < trace.len() ==> (#[trigger] trace[i]).service != 1
}

/// The execution started and failed: a start report and a completion report of
/// failure.
pub open spec fn started_and_failed(trace: Seq<TmContent>, request_id: u32) -> bool {
    &&& trace.len() == 2
    &&& trace[0] == verification_success(3, request_id)
    &&& is_failure_report(trace[1], 8, request_id)
}

/// The execution could not start: a start report of failure.
pub open spec fn start_failed(trace: Seq<TmContent>, request_id: u32) -> bool {
    trace.len() == 1 && is_failure_report(trace[0], 4, request_id)
}

/// The execution of an accepted telecommand that has ended leaves exactly one of
/// three traces: start and completion, start and failed completion, or failed
/// start. The first goes with the status `Completed`, the others with `Failed`.
/// An execution that goes on has left its start report.
pub proof fn lemma_one_execution_outcome(
    trace: Seq<TmContent>,
    request_id: u32,
    status: CommandExecutionStatus,
)
    requires
        execution_trace(trace, request_id, status),
    ensures
        status == CommandExecutionStatus::Started ==> trace == seq![
            verification_success(3, request_id),
        ],
        status != CommandExecutionStatus::Started ==> {
            let a = started_and_completed(trace, request_id);
            let b = started_and_failed(trace, request_id);
            let c = start_failed(trace, request_id);
            &&& (a && !b && !c) || (!a && b && !c) || (!a && !b && c)
            &&& a <==> status == CommandExecutionStatus::Completed
        },
{
    crate::endian::lemma_be_bytes_len(request_id as nat, 4);
}

/// The number of acceptance reports, of success or of failure, in `trace`.
pub open spec fn acceptance_reports(trace: Seq<TmContent>) -> nat
    decreases trace.len(),
{
    if trace.len() == 0 {
        0
    } else {
        let last = trace.last();
        let rest = acceptance_reports(trace.drop_last());
        if last.service == 1 && (last.subservice == 1 || last.subservice == 2) {
            rest + 1
        } else {
            rest
        }
    }
}

proof fn lemma_no_acceptance_reports(trace: Seq<TmContent>)
    requires
        forall|i: int|
            0 <= i < trace.len() ==> !((#[trigger] trace[i]).service == 1 && (trace[i].subservice
                == 1 || trace[i].subservice == 2)),
    ensures
        acceptance_reports(trace) == 0,
    decreases trace.len(),
{
    if trace.len() > 0 {
        assert(trace.drop_last().len() == trace.len() - 1);
        assert forall|i: int| 0 <= i < trace.drop_last().len() implies !((
        #[trigger] trace.drop_last()[i]).service == 1 && (trace.drop_last()[i].subservice == 1
            || trace.drop_last()[i].subservice == 2)) by {
            assert(trace.drop_last()[i] == trace[i]);
        }
        lemma_no_acceptance_reports(trace.drop_last());
        assert(trace.last() == trace[trace.len() - 1]);
    }
}

proof fn lemma_acceptance_reports_from_first(trace: Seq<TmContent>)
    requires
        trace.len() >= 1,
    ensures
        acceptance_reports(trace) == acceptance_reports(trace.take(1)) + acceptance_reports(
            trace.skip(1),
        ),
    decreases trace.len(),
{
    if trace.len() == 1 {
        assert(trace.take(1) =~= trace);
        assert(trace.skip(1) =~= Seq::<TmContent>::empty());
    } else {
        lemma_acceptance_reports_from_first(trace.drop_last());
        assert(trace.drop_last().take(1) =~= trace.take(1));
        assert(trace.drop_last().skip(1) =~= trace.skip(1).drop_last());
        assert(trace.skip(1).last() == trace.last());
    }
}

/// Every telecommand that a service takes for its own, and the telecommand alone, is
/// answered by one acceptance report: of success (subservice 1) where its command
/// could be read, of failure (subservice 2) where it could not, and in either case
/// as the first packet. What is not a telecommand of the service gets none.
pub proof fn lemma_one_acceptance_report<C: ServiceCommand>(
    apid: u16,
    service: u8,
    bytes: Seq<u8>,
    r: AcceptanceResult,
    trace: Seq<TmContent>,
)
    requires
        handled::<C>(apid, service, bytes, r, trace),
    ensures
        match pus_tc_read(bytes) {
            Some(tc) if tc.apid == apid && tc.service == service => {
                &&& acceptance_reports(trace) == 1
                &&& trace[0].service == 1
                &&& trace[0].subservice == (if r.is_ok() {
                    1u8
                } else {
                    2u8
                })
                &&& r.is_ok() <==> C::parse_outcome(tc).is_ok()
            },
            _ => trace.len() == 0,
        },
{
    match pus_tc_read(bytes) {
        Some(tc) if tc.apid == apid && tc.service == service => {
            lemma_acceptance_reports_from_first(trace);
            let head = trace.take(1);
            assert(head.drop_last() =~= Seq::<TmContent>::empty());
            assert(head.last() == trace[0]);
            assert(acceptance_reports(head.drop_last()) == 0);
            assert(acceptance_reports(head) == 1);
            let rest = trace.skip(1);
            match C::parse_outcome(tc) {
                Err(_) => {
                    assert(rest =~= Seq::<TmContent>::empty());
                },
                Ok(_) => {
                    assert forall|i: int| 0 <= i < rest.len() implies !((
                    #[trigger] rest[i]).service == 1 && (rest[i].subservice == 1
                        || rest[i].subservice == 2)) by {
                    }
                    lemma_no_acceptance_reports(rest);
                },
            }
        },
        _ => {},
    }
}

} // verus!
