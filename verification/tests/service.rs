use rccn_usr::packets::TmPacket;
use rccn_usr::service::util::create_pus_tc;
use rccn_usr::service::{
    AcceptanceError, AcceptedTc, CommandExecutionStatus, CommandParseError, PusServiceBase,
    SubserviceTmData,
};
use rccn_usr::time::TimestampHelper;
use rccn_usr::types::{EcssTmtcError, RccnEcssTmSender, Sender, VirtualChannelTxMap};
use satrs::spacepackets::ecss::tc::PusTcReader;
use satrs::spacepackets::ecss::tm::{GenericPusTmSecondaryHeader, PusTmReader};
use satrs::spacepackets::ecss::PusPacket;
use satrs::spacepackets::CcsdsPacket;

fn base() -> PusServiceBase {
    let mut map = VirtualChannelTxMap::new();
    map.insert(0, Sender { channel: 42 });
    map.insert(1, Sender { channel: 43 });
    PusServiceBase::new(0x123, 20, 7, &map)
}

fn telecommand() -> rccn_usr::packets::PusTc {
    rccn_usr::packets::PusTc {
        request_id: 0x1923_C000,
        apid: 0x123,
        service: 20,
        subservice: 1,
        app_data: vec![],
    }
}

fn check(packet: &TmPacket, service: u8, subservice: u8, counter: u16, source: &[u8]) {
    assert_eq!((packet.service, packet.subservice), (service, subservice));
    assert_eq!(packet.msg_counter, counter);
    assert_eq!(packet.source_data, source);
    assert_eq!(packet.apid, 0x123);
    let (tm, size) = PusTmReader::new(&packet.bytes, 8).unwrap();
    assert_eq!(size, packet.bytes.len());
    assert_eq!(tm.apid(), 0x123);
    assert_eq!(PusPacket::service(&tm), service);
    assert_eq!(PusPacket::subservice(&tm), subservice);
    assert_eq!(tm.msg_counter(), counter);
    assert_eq!(tm.dest_id(), 0);
    assert_eq!(tm.seq_count(), 0);
    assert_eq!(tm.timestamp(), &packet.timestamp[..]);
    assert_eq!(tm.source_data(), source);
}

#[test]
fn base_sends_on_virtual_channel_zero() {
    let base = base();
    assert_eq!(base.apid, 0x123);
    assert_eq!(base.service, 20);
    assert_eq!(base.component_id, 7);
    assert_eq!(base.get_default_tm_sender().channel, Sender { channel: 42 });
    assert_eq!(base.get_default_tm_sender().msg_counter, 0);
    assert!(base.get_default_tm_sender().sent.is_empty());
}

#[test]
fn verification_reports_carry_the_request_identifier() {
    let mut base = base();
    let request = [0x19u8, 0x23, 0xC0, 0x00];

    let token = base.add_tc(&telecommand());
    assert_eq!(token.request_id(), 0x1923_C000);
    let accepted = base.send_acceptance_success(token).unwrap();
    assert_eq!(accepted.request_id(), 0x1923_C000);
    let started = base.send_start_success(accepted).unwrap();
    assert_eq!(started.request_id(), 0x1923_C000);
    base.send_completion_success(started).unwrap();

    let token = base.add_tc(&telecommand());
    base.send_acceptance_failure(token, 5, &[]).unwrap();
    let token = base.add_tc(&telecommand());
    let accepted = base.send_acceptance_success(token).unwrap();
    base.send_start_failure(accepted, 0, &[0xEE]).unwrap();
    let token = base.add_tc(&telecommand());
    let accepted = base.send_acceptance_success(token).unwrap();
    let started = base.send_start_success(accepted).unwrap();
    base.send_completion_failure(started, 1, &[1, 2, 3]).unwrap();

    let sent = base.tm_sender.take_sent();
    assert_eq!(sent.len(), 9);
    check(&sent[0], 1, 1, 0, &request);
    check(&sent[1], 1, 3, 1, &request);
    check(&sent[2], 1, 7, 2, &request);
    check(&sent[3], 1, 2, 3, &[0x19, 0x23, 0xC0, 0x00, 5]);
    check(&sent[4], 1, 1, 4, &request);
    check(&sent[5], 1, 4, 5, &[0x19, 0x23, 0xC0, 0x00, 0, 0xEE]);
    check(&sent[6], 1, 1, 6, &request);
    check(&sent[7], 1, 3, 7, &request);
    check(&sent[8], 1, 8, 8, &[0x19, 0x23, 0xC0, 0x00, 1, 1, 2, 3]);
    assert_eq!(base.tm_sender.msg_counter, 9);
}

#[test]
fn failure_data_that_is_too_long_is_not_reported() {
    let mut base = base();
    let token = base.add_tc(&telecommand());
    assert_eq!(
        base.send_acceptance_failure(token, 5, &[0u8; 102]),
        Err(EcssTmtcError::CantSendDirectTm)
    );
    let token = base.add_tc(&telecommand());
    let accepted = base.send_acceptance_success(token).unwrap();
    assert!(base.send_start_failure(accepted, 5, &[0u8; 200]).is_err());
    assert_eq!(base.tm_sender.sent.len(), 1);
    assert_eq!(base.tm_sender.msg_counter, 1);
    // The longest failure data that a report takes.
    let token = base.add_tc(&telecommand());
    base.send_acceptance_failure(token, 5, &[7u8; 101]).unwrap();
    let sent = base.tm_sender.take_sent();
    let mut source = vec![0x19, 0x23, 0xC0, 0x00, 5];
    source.extend_from_slice(&[7u8; 101]);
    check(&sent[1], 1, 2, 1, &source);
}

#[test]
fn service_telemetry_is_stamped_and_counted() {
    let mut base = base();
    let tm = base.create_tm(2, &[1, 2, 3]);
    assert_eq!((tm.subservice, tm.data.clone()), (2, vec![1, 2, 3]));
    base.send_tm(&tm).unwrap();
    base.timestamp_helper.update_from_now();
    base.send_tm(&SubserviceTmData { subservice: 9, data: vec![] }).unwrap();
    let too_long = SubserviceTmData { subservice: 9, data: vec![0; 65513] };
    assert_eq!(base.send_tm(&too_long), Err(EcssTmtcError::CantSendDirectTm));
    let longest = SubserviceTmData { subservice: 10, data: vec![0xA5; 65512] };
    base.send_tm(&longest).unwrap();

    let sent = base.tm_sender.take_sent();
    assert_eq!(sent.len(), 3);
    check(&sent[0], 20, 2, 0, &[1, 2, 3]);
    assert_eq!(sent[0].timestamp, vec![0u8; 8]);
    check(&sent[1], 20, 9, 1, &[]);
    assert_ne!(sent[1].timestamp, vec![0u8; 8]);
    check(&sent[2], 20, 10, 2, &longest.data);
}

#[test]
fn message_counter_wraps_after_the_largest() {
    let mut sender = RccnEcssTmSender::new(Sender { channel: 0 }, 0xFFFE);
    for _ in 0..3 {
        sender.send_tm(1, 20, 2, &[0u8; 8], &[]).unwrap();
    }
    let counters: Vec<u16> = sender.sent.iter().map(|p| p.msg_counter).collect();
    assert_eq!(counters, vec![0xFFFE, 0xFFFF, 0]);
    assert_eq!(sender.msg_counter, 1);
    let sent = sender.take_sent();
    assert_eq!(sent.len(), 3);
    assert!(sender.sent.is_empty());
    assert_eq!(sender.msg_counter, 1);
    let (tm, _) = PusTmReader::new(&sent[1].bytes, 8).unwrap();
    assert_eq!(tm.msg_counter(), 0xFFFF);
}

#[test]
fn handle_reports_start_and_completion() {
    let mut base = base();
    let token = base.add_tc(&telecommand());
    let accepted = base.send_acceptance_success(token).unwrap();
    let r = AcceptedTc::new(accepted).handle(&mut base, || true);
    assert!(matches!(r, Ok(CommandExecutionStatus::Completed)));

    let token = base.add_tc(&telecommand());
    let accepted = base.send_acceptance_success(token).unwrap();
    let r = AcceptedTc::new(accepted).handle(&mut base, || false);
    assert!(matches!(r, Ok(CommandExecutionStatus::Failed)));

    let sent = base.tm_sender.take_sent();
    let kinds: Vec<(u8, u8)> = sent.iter().map(|p| (p.service, p.subservice)).collect();
    assert_eq!(kinds, vec![(1, 1), (1, 3), (1, 7), (1, 1), (1, 3), (1, 8)]);
    check(&sent[5], 1, 8, 5, &[0x19, 0x23, 0xC0, 0x00, 1]);
}

#[test]
fn handle_with_tm_answers_with_a_packet_of_the_service() {
    let mut base = base();
    let token = base.add_tc(&telecommand());
    let accepted = base.send_acceptance_success(token).unwrap();
    let r = AcceptedTc::new(accepted).handle_with_tm(&mut base, || {
        Ok::<SubserviceTmData, ()>(SubserviceTmData { subservice: 2, data: vec![0xAA, 0xBB] })
    });
    assert!(matches!(r, Ok(CommandExecutionStatus::Completed)));

    let token = base.add_tc(&telecommand());
    let accepted = base.send_acceptance_success(token).unwrap();
    let r = AcceptedTc::new(accepted).handle_with_tm(&mut base, || Err::<SubserviceTmData, u8>(3));
    assert!(matches!(r, Ok(CommandExecutionStatus::Failed)));

    let token = base.add_tc(&telecommand());
    let accepted = base.send_acceptance_success(token).unwrap();
    let r = AcceptedTc::new(accepted).handle_with_tm(&mut base, || {
        Ok::<SubserviceTmData, ()>(SubserviceTmData { subservice: 2, data: vec![0; 70_000] })
    });
    assert!(matches!(r, Ok(CommandExecutionStatus::Failed)));

    let sent = base.tm_sender.take_sent();
    let kinds: Vec<(u8, u8)> = sent.iter().map(|p| (p.service, p.subservice)).collect();
    assert_eq!(
        kinds,
        vec![(1, 1), (1, 3), (1, 7), (20, 2), (1, 1), (1, 3), (1, 8), (1, 1), (1, 3), (1, 8)]
    );
    check(&sent[3], 20, 2, 3, &[0xAA, 0xBB]);
}

#[test]
fn start_can_be_reported_alone_or_fail() {
    let mut base = base();
    let token = base.add_tc(&telecommand());
    let accepted = base.send_acceptance_success(token).unwrap();
    let started = AcceptedTc::new(accepted).start(&mut base);
    assert_eq!(started.token.request_id(), 0x1923_C000);
    let r = started.complete(&mut base, true);
    assert!(matches!(r, Ok(CommandExecutionStatus::Completed)));

    let token = base.add_tc(&telecommand());
    let accepted = base.send_acceptance_success(token).unwrap();
    let r = AcceptedTc::new(accepted).fail_start(&mut base, 0);
    assert!(matches!(r, Ok(CommandExecutionStatus::Failed)));
    let sent = base.tm_sender.take_sent();
    check(&sent[4], 1, 4, 4, &[0x19, 0x23, 0xC0, 0x00, 0]);
}

#[test]
fn acceptance_errors_have_their_codes() {
    let cases = [
        (AcceptanceError::UnknownApid(1), 2u8),
        (AcceptanceError::UnknownService(1), 3),
        (AcceptanceError::UnknownSubservice(1), 4),
        (AcceptanceError::CommandParseError(CommandParseError::Other), 5),
        (AcceptanceError::ArgumentError, 6),
        (AcceptanceError::ServiceDisconnected, 7),
        (AcceptanceError::SendVerificationTmFailed, 8),
    ];
    for (error, code) in cases {
        assert_eq!(error.failure_code(), code);
    }
    let e = PusTcReader::new(&[0u8; 3]).unwrap_err();
    assert_eq!(AcceptanceError::PusError(e).failure_code(), 1);
}

#[test]
fn created_telecommand_is_read_back() {
    let bytes = create_pus_tc(0x42, 20, 3, &[1, 2, 3, 4]);
    assert_eq!(bytes.len(), 6 + 5 + 4 + 2);
    let (tc, size) = PusTcReader::new(&bytes).unwrap();
    assert_eq!(size, bytes.len());
    assert_eq!(tc.apid(), 0x42);
    assert_eq!(tc.service(), 20);
    assert_eq!(tc.subservice(), 3);
    assert_eq!(tc.seq_count(), 0);
    assert_eq!(tc.app_data(), &[1, 2, 3, 4]);
    assert_eq!(bytes[0..2], [0x18, 0x42]);
}

#[test]
fn timestamp_starts_at_zero_and_follows_the_clock() {
    let mut helper = TimestampHelper::new();
    assert_eq!(helper.stamp(), &[0u8; 8]);
    helper.update_from_now();
    let stamp = helper.stamp().to_vec();
    assert_eq!(stamp.len(), 8);
    // The preamble of a CUC stamp with four bytes of seconds and three of fraction.
    assert_eq!(stamp[0], 0b0001_1111);
    assert_ne!(stamp[1..5], [0u8; 4]);
}

#[test]
fn verification_reports_are_packets_of_service_one() {
    // Each report has the bytes of a packet of service 1 that is built from the same
    // fields: application, subservice, message counter, time stamp and source data.
    let mut base = base();
    let token = base.add_tc(&telecommand());
    let accepted = base.send_acceptance_success(token).unwrap();
    let started = base.send_start_success(accepted).unwrap();
    base.send_completion_success(started).unwrap();
    let token = base.add_tc(&telecommand());
    base.send_acceptance_failure(token, 5, &[9]).unwrap();
    let token = base.add_tc(&telecommand());
    let accepted = base.send_acceptance_success(token).unwrap();
    base.send_start_failure(accepted, 0, &[]).unwrap();
    let token = base.add_tc(&telecommand());
    let accepted = base.send_acceptance_success(token).unwrap();
    let started = base.send_start_success(accepted).unwrap();
    base.send_completion_failure(started, 1, &[8, 7]).unwrap();
    let reports = base.tm_sender.take_sent();

    let mut plain = RccnEcssTmSender::new(Sender { channel: 0 }, 0);
    for report in reports.iter() {
        plain
            .send_tm(0x123, 1, report.subservice, &[0u8; 8], &report.source_data)
            .unwrap();
    }
    assert_eq!(reports.len(), 9);
    for (report, packet) in reports.iter().zip(plain.sent.iter()) {
        assert_eq!(report.bytes, packet.bytes);
    }
    let subservices: Vec<u8> = reports.iter().map(|p| p.subservice).collect();
    assert_eq!(subservices, vec![1, 3, 7, 2, 1, 4, 1, 3, 8]);
}

#[test]
fn timestamp_is_the_reading_of_the_clock_where_there_is_one() {
    let mut helper = TimestampHelper::new();
    helper.update_from(None);
    assert_eq!(helper.stamp(), &[0u8; 8]);
    helper.update_from(Some([0x1F, 1, 2, 3, 4, 5, 6, 7]));
    assert_eq!(helper.stamp(), &[0x1F, 1, 2, 3, 4, 5, 6, 7]);
    helper.update_from(None);
    assert_eq!(helper.stamp(), &[0x1F, 1, 2, 3, 4, 5, 6, 7]);
    helper.update_from(Some([0u8; 8]));
    assert_eq!(helper.stamp(), &[0u8; 8]);
}

#[test]
fn queued_packets_are_those_of_the_application_and_the_time_of_the_last_update() {
    let mut base = base();
    base.timestamp_helper.update_from(Some([0x1F, 9, 8, 7, 6, 5, 4, 3]));
    base.send_tm(&SubserviceTmData { subservice: 2, data: vec![1] }).unwrap();
    let token = base.add_tc(&telecommand());
    base.send_acceptance_success(token).unwrap();
    let sent = base.tm_sender.take_sent();
    for packet in sent.iter() {
        assert_eq!(packet.apid, 0x123);
        assert_eq!(packet.timestamp, vec![0x1F, 9, 8, 7, 6, 5, 4, 3]);
    }
    check(&sent[0], 20, 2, 0, &[1]);
    check(&sent[1], 1, 1, 1, &[0x19, 0x23, 0xC0, 0x00]);
}
