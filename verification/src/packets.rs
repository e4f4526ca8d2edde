//! PUS packets as the services see them: a telecommand that was read from bytes,
//! and telemetry that was built and is ready to be sent.

use crate::endian::be_bytes;
use satrs::pus::verification::{
    FailParams,
    RequestId,
    VerificationReportCreator,
    VerificationToken,
};
use satrs::spacepackets::ecss::tc::{PusTcCreator, PusTcReader, PusTcSecondaryHeader};
use satrs::spacepackets::ecss::tm::{PusTmCreator, PusTmSecondaryHeader};
use satrs::spacepackets::ecss::{EcssEnumU8, PusError, PusPacket, WritablePusPacket};
use satrs::spacepackets::{CcsdsPacket, PacketId, PacketSequenceCtrl, PacketType, SequenceFlags, SpHeader};
use vstd::prelude::*;

verus! {

/// The largest application process identifier: the field has eleven bits.
pub const MAX_APID: u16 = 0x7FF;

/// The most bytes that time stamp and source data of one telemetry packet may take
/// together, so that the packet's length fits its 16-bit length field.
pub const MAX_TM_PAYLOAD: usize = 65520;

/// The most bytes of application data that a telecommand built here may carry.
pub const MAX_TC_APP_DATA: usize = 65520;

/// The most bytes of failure data that a verification report carries: what the
/// room for the source data leaves beside the request identifier and the failure
/// code.
pub const MAX_FAILURE_DATA: usize = 101;

/// The error of `PusTcReader::new`, carried as it is.
#[verifier::external_type_specification]
#[verifier::external_body]
pub struct ExPusError(PusError);

/// What the services read of a telecommand.
pub struct PusTc {
    /// The first four bytes of the packet, as one number: version, packet
    /// identification and sequence control. Verification reports name the
    /// telecommand by it.
    pub request_id: u32,
    pub apid: u16,
    pub service: u8,
    pub subservice: u8,
    pub app_data: Vec<u8>,
}

/// The mathematical content of a [`PusTc`].
pub struct PusTcView {
    pub request_id: u32,
    pub apid: u16,
    pub service: u8,
    pub subservice: u8,
    pub app_data: Seq<u8>,
}

impl View for PusTc {
    type V = PusTcView;

    open spec fn view(&self) -> PusTcView {
        PusTcView {
            request_id: self.request_id,
            apid: self.apid,
            service: self.service,
            subservice: self.subservice,
            app_data: self.app_data@,
        }
    }
}

/// What `PusTcReader::new` reads from `bytes`, with the request identifier that
/// `RequestId::new` and `raw` then take from the packet that was read: the fields
/// of the telecommand, or nothing where `PusTcReader::new` returns an error.
pub uninterp spec fn pus_tc_read(bytes: Seq<u8>) -> Option<PusTcView>;

/// The bytes that `to_vec` gives for a `PusTmCreator` made of these fields, with
/// unsegmented sequence flags and the packet length set.
pub uninterp spec fn pus_tm_bytes(
    apid: u16,
    seq_count: u16,
    service: u8,
    subservice: u8,
    msg_counter: u16,
    dest_id: u16,
    stamp: Seq<u8>,
    source_data: Seq<u8>,
) -> Seq<u8>;

/// The bytes that `to_vec` gives for a `PusTcCreator` made of these fields, with
/// unsegmented sequence flags and the packet length set.
pub uninterp spec fn pus_tc_bytes(
    apid: u16,
    seq_count: u16,
    service: u8,
    subservice: u8,
    ack: u8,
    source_id: u16,
    app_data: Seq<u8>,
) -> Seq<u8>;

/// The largest sequence count: the field has fourteen bits.
pub const MAX_SEQ_COUNT: u16 = 0x3FFF;

/// The sequence count of the packets built here: the link counts them.
pub const SEQUENCE_COUNT: u16 = 0;

/// The destination of the telemetry built here.
pub const TM_DESTINATION: u16 = 0;

/// The acknowledgement flags of the telecommands built here: every report is
/// asked for.
pub const TC_ACK_FLAGS: u8 = 0xff;

/// The source of the telecommands built here.
pub const TC_SOURCE_ID: u16 = 0;

/// The room for the source data of a verification report: the request
/// identifier, a step of one byte, a failure code of one byte and a hundred bytes
/// of failure data.
pub const REPORT_SOURCE_CAPACITY: usize = 4 + 1 + 1 + 100;

/// Calls `PusTcReader::new` and copies out the fields that the services read. The
/// request identifier is the one that `RequestId::new` takes from the packet.
#[verifier::external_body]
pub(crate) fn read_pus_tc(bytes: &[u8]) -> (r: Result<PusTc, PusError>)
    ensures
        r.is_ok() == pus_tc_read(bytes@).is_some(),
        r matches Ok(tc) ==> pus_tc_read(bytes@) == Some(tc@),
{
    let (tc, _size) = PusTcReader::new(bytes)?;
    Ok(
        PusTc {
            request_id: RequestId::new(&tc).raw(),
            apid: tc.apid(),
            service: tc.service(),
            subservice: tc.subservice(),
            app_data: tc.app_data().to_vec(),
        },
    )
}

/// Builds a telemetry packet with `PusTmCreator::new` and serialises it with
/// `to_vec`. Within the bounds on the identifier, the sequence count and the
/// lengths neither call fails.
#[verifier::external_body]
pub(crate) fn write_pus_tm(
    apid: u16,
    seq_count: u16,
    service: u8,
    subservice: u8,
    msg_counter: u16,
    dest_id: u16,
    stamp: &[u8],
    source_data: &[u8],
) -> (bytes: Vec<u8>)
    requires
        apid <= MAX_APID,
        seq_count <= MAX_SEQ_COUNT,
        stamp@.len() + source_data@.len() <= MAX_TM_PAYLOAD,
    ensures
        bytes@ == pus_tm_bytes(
            apid,
            seq_count,
            service,
            subservice,
            msg_counter,
            dest_id,
            stamp@,
            source_data@,
        ),
{
    let header = SpHeader::new(
        PacketId::new(PacketType::Tm, true, apid),
        PacketSequenceCtrl::new(SequenceFlags::Unsegmented, seq_count),
        0,
    );
    let secondary = PusTmSecondaryHeader::new(service, subservice, msg_counter, dest_id, stamp);
    PusTmCreator::new(header, secondary, source_data, true).to_vec().unwrap()
}

/// Builds a telecommand with `PusTcCreator::new` and serialises it with `to_vec`.
#[verifier::external_body]
pub(crate) fn write_pus_tc(
    apid: u16,
    seq_count: u16,
    service: u8,
    subservice: u8,
    ack: u8,
    source_id: u16,
    app_data: &[u8],
) -> (bytes: Vec<u8>)
    requires
        apid <= MAX_APID,
        seq_count <= MAX_SEQ_COUNT,
        app_data@.len() <= MAX_TC_APP_DATA,
    ensures
        bytes@ == pus_tc_bytes(apid, seq_count, service, subservice, ack, source_id, app_data@),
{
    let header = SpHeader::new(
        PacketId::new(PacketType::Tc, true, apid),
        PacketSequenceCtrl::new(SequenceFlags::Unsegmented, seq_count),
        0,
    );
    let secondary = PusTcSecondaryHeader::new(service, subservice, ack, source_id);
    PusTcCreator::new(header, secondary, app_data, true).to_vec().unwrap()
}

/// The source data of a verification report of success: the request identifier.
pub open spec fn success_report(request_id: u32) -> Seq<u8> {
    be_bytes(request_id as nat, 4)
}

/// The source data of a verification report of failure: the request identifier,
/// the failure code and the failure data.
pub open spec fn failure_report(request_id: u32, code: u8, data: Seq<u8>) -> Seq<u8> {
    be_bytes(request_id as nat, 4).push(code) + data
}

/// What names the telecommand and the packet of a verification report: the
/// application, sequence count and destination of the packet, the request
/// identifier of the telecommand, and the message counter.
pub struct ReportHeader {
    pub apid: u16,
    pub seq_count: u16,
    pub dest_id: u16,
    pub request_id: u32,
    pub msg_counter: u16,
}

impl ReportHeader {
    /// The identifier and the sequence count fit their fields.
    pub open spec fn wf(&self) -> bool {
        self.apid <= MAX_APID && self.seq_count <= MAX_SEQ_COUNT
    }

    /// The bytes of the report of the given subservice with the given stamp and
    /// source data.
    pub open spec fn bytes(&self, subservice: u8, stamp: Seq<u8>, source_data: Seq<u8>) -> Seq<u8> {
        pus_tm_bytes(
            self.apid,
            self.seq_count,
            1,
            subservice,
            self.msg_counter,
            self.dest_id,
            stamp,
            source_data,
        )
    }
}

/// `VerificationReportCreator::acceptance_success`, serialised with `to_vec`: a
/// telemetry packet of service 1, subservice 1, whose source data is the request
/// identifier. `room` is the length of the buffer that the source data is built
/// in.
#[verifier::external_body]
pub(crate) fn write_acceptance_success(header: &ReportHeader, stamp: &[u8], room: usize) -> (bytes:
    Vec<u8>)
    requires
        header.wf(),
        4 <= room <= MAX_TM_PAYLOAD,
        stamp@.len() + 4 <= MAX_TM_PAYLOAD,
    ensures
        bytes@ == header.bytes(1, stamp@, success_report(header.request_id)),
{
    let mut creator = VerificationReportCreator::new(header.apid).unwrap();
    creator.set_dest_id(header.dest_id);
    let token = creator.add_tc_with_req_id(RequestId::from(header.request_id));
    let mut source = vec![0u8; room];
    let (seq, msg) = (header.seq_count, header.msg_counter);
    let (tm, _) = creator.acceptance_success(&mut source, token, seq, msg, stamp).unwrap();
    tm.to_vec().unwrap()
}

/// `VerificationReportCreator::acceptance_failure`, serialised with `to_vec`: a
/// telemetry packet of service 1, subservice 2, whose source data is the request
/// identifier, the one-byte failure code and the failure data. `room` is the
/// length of the buffer that the source data is built in.
#[verifier::external_body]
pub(crate) fn write_acceptance_failure(
    header: &ReportHeader,
    stamp: &[u8],
    room: usize,
    code: u8,
    data: &[u8],
) -> (bytes: Vec<u8>)
    requires
        header.wf(),
        5 + data@.len() <= room <= MAX_TM_PAYLOAD,
        stamp@.len() + 5 + data@.len() <= MAX_TM_PAYLOAD,
    ensures
        bytes@ == header.bytes(2, stamp@, failure_report(header.request_id, code, data@)),
{
    let mut creator = VerificationReportCreator::new(header.apid).unwrap();
    creator.set_dest_id(header.dest_id);
    let token = creator.add_tc_with_req_id(RequestId::from(header.request_id));
    let mut source = vec![0u8; room];
    let (seq, msg) = (header.seq_count, header.msg_counter);
    let code = EcssEnumU8::new(code);
    let params = FailParams::new(stamp, &code, data);
    creator.acceptance_failure(&mut source, token, seq, msg, params).unwrap().to_vec().unwrap()
}

/// `VerificationReportCreator::start_success`, serialised with `to_vec`: a
/// telemetry packet of service 1, subservice 3, whose source data is the request
/// identifier. `room` is the length of the buffer that the source data is built
/// in.
#[verifier::external_body]
pub(crate) fn write_start_success(header: &ReportHeader, stamp: &[u8], room: usize) -> (bytes: Vec<
    u8,
>)
    requires
        header.wf(),
        4 <= room <= MAX_TM_PAYLOAD,
        stamp@.len() + 4 <= MAX_TM_PAYLOAD,
    ensures
        bytes@ == header.bytes(3, stamp@, success_report(header.request_id)),
{
    let mut creator = VerificationReportCreator::new(header.apid).unwrap();
    creator.set_dest_id(header.dest_id);
    let token = VerificationToken::new_accepted_state(RequestId::from(header.request_id));
    let mut source = vec![0u8; room];
    let (seq, msg) = (header.seq_count, header.msg_counter);
    let (tm, _) = creator.start_success(&mut source, token, seq, msg, stamp).unwrap();
    tm.to_vec().unwrap()
}

/// `VerificationReportCreator::start_failure`, serialised with `to_vec`: a
/// telemetry packet of service 1, subservice 4, whose source data is the request
/// identifier, the one-byte failure code and the failure data. `room` is the
/// length of the buffer that the source data is built in.
#[verifier::external_body]
pub(crate) fn write_start_failure(
    header: &ReportHeader,
    stamp: &[u8],
    room: usize,
    code: u8,
    data: &[u8],
) -> (bytes: Vec<u8>)
    requires
        header.wf(),
        5 + data@.len() <= room <= MAX_TM_PAYLOAD,
        stamp@.len() + 5 + data@.len() <= MAX_TM_PAYLOAD,
    ensures
        bytes@ == header.bytes(4, stamp@, failure_report(header.request_id, code, data@)),
{
    let mut creator = VerificationReportCreator::new(header.apid).unwrap();
    creator.set_dest_id(header.dest_id);
    let token = VerificationToken::new_accepted_state(RequestId::from(header.request_id));
    let mut source = vec![0u8; room];
    let (seq, msg) = (header.seq_count, header.msg_counter);
    let code = EcssEnumU8::new(code);
    let params = FailParams::new(stamp, &code, data);
    creator.start_failure(&mut source, token, seq, msg, params).unwrap().to_vec().unwrap()
}

/// `VerificationReportCreator::completion_success`, serialised with `to_vec`: a
/// telemetry packet of service 1, subservice 7, whose source data is the request
/// identifier. `room` is the length of the buffer that the source data is built
/// in.
#[verifier::external_body]
pub(crate) fn write_completion_success(header: &ReportHeader, stamp: &[u8], room: usize) -> (bytes:
    Vec<u8>)
    requires
        header.wf(),
        4 <= room <= MAX_TM_PAYLOAD,
        stamp@.len() + 4 <= MAX_TM_PAYLOAD,
    ensures
        bytes@ == header.bytes(7, stamp@, success_report(header.request_id)),
{
    let mut creator = VerificationReportCreator::new(header.apid).unwrap();
    creator.set_dest_id(header.dest_id);
    let token = VerificationToken::new_started_state(RequestId::from(header.request_id));
    let mut source = vec![0u8; room];
    let (seq, msg) = (header.seq_count, header.msg_counter);
    creator.completion_success(&mut source, token, seq, msg, stamp).unwrap().to_vec().unwrap()
}

/// `VerificationReportCreator::completion_failure`, serialised with `to_vec`: a
/// telemetry packet of service 1, subservice 8, whose source data is the request
/// identifier, the one-byte failure code and the failure data. `room` is the
/// length of the buffer that the source data is built in.
#[verifier::external_body]
pub(crate) fn write_completion_failure(
    header: &ReportHeader,
    stamp: &[u8],
    room: usize,
    code: u8,
    data: &[u8],
) -> (bytes: Vec<u8>)
    requires
        header.wf(),
        5 + data@.len() <= room <= MAX_TM_PAYLOAD,
        stamp@.len() + 5 + data@.len() <= MAX_TM_PAYLOAD,
    ensures
        bytes@ == header.bytes(8, stamp@, failure_report(header.request_id, code, data@)),
{
    let mut creator = VerificationReportCreator::new(header.apid).unwrap();
    creator.set_dest_id(header.dest_id);
    let token = VerificationToken::new_started_state(RequestId::from(header.request_id));
    let mut source = vec![0u8; room];
    let (seq, msg) = (header.seq_count, header.msg_counter);
    let code = EcssEnumU8::new(code);
    let params = FailParams::new(stamp, &code, data);
    creator.completion_failure(&mut source, token, seq, msg, params).unwrap().to_vec().unwrap()
}

/// A telemetry packet that was built: its fields and its bytes on the wire.
pub struct TmPacket {
    pub apid: u16,
    pub service: u8,
    pub subservice: u8,
    pub msg_counter: u16,
    pub timestamp: Vec<u8>,
    pub source_data: Vec<u8>,
    pub bytes: Vec<u8>,
}

/// What a telemetry packet reports: its service, its subservice and its source
/// data.
pub struct TmContent {
    pub service: u8,
    pub subservice: u8,
    pub source_data: Seq<u8>,
}

impl TmPacket {
    /// The bytes are those of a packet with these fields.
    pub open spec fn wf(&self) -> bool {
        self.bytes@ == pus_tm_bytes(
            self.apid,
            SEQUENCE_COUNT,
            self.service,
            self.subservice,
            self.msg_counter,
            TM_DESTINATION,
            self.timestamp@,
            self.source_data@,
        )
    }

    /// Whether this is the packet of the given fields: it holds them, and its bytes
    /// are those of a packet made of them.
    pub open spec fn is_packet(
        &self,
        apid: u16,
        service: u8,
        subservice: u8,
        msg_counter: u16,
        stamp: Seq<u8>,
        source_data: Seq<u8>,
    ) -> bool {
        &&& self.apid == apid
        &&& self.service == service
        &&& self.subservice == subservice
        &&& self.msg_counter == msg_counter
        &&& self.timestamp@ == stamp
        &&& self.source_data@ == source_data
        &&& self.bytes@ == pus_tm_bytes(
            apid,
            SEQUENCE_COUNT,
            service,
            subservice,
            msg_counter,
            TM_DESTINATION,
            stamp,
            source_data,
        )
    }

    /// What the packet reports.
    pub open spec fn content(&self) -> TmContent {
        TmContent {
            service: self.service,
            subservice: self.subservice,
            source_data: self.source_data@,
        }
    }
}

/// A verification report of success: service 1 with the request identifier.
pub open spec fn verification_success(subservice: u8, request_id: u32) -> TmContent {
    TmContent { service: 1, subservice, source_data: success_report(request_id) }
}

/// A verification report of failure: service 1 with the request identifier, the
/// failure code and the failure data.
pub open spec fn verification_failure(subservice: u8, request_id: u32, code: u8, data: Seq<u8>) -> TmContent {
    TmContent { service: 1, subservice, source_data: failure_report(request_id, code, data) }
}

} // verus!
