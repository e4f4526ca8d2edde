use rccn_usr::bitbuffer::{BitBuffer, BitWriter};
use rccn_usr::packets::TmPacket;
use rccn_usr::parameter_management_service::parameters::{
    AggregateParameters, Parameter, ParameterTable, ParameterValue,
};
use rccn_usr::parameter_management_service::service::ParameterManagementService;
use rccn_usr::parameter_management_service::{src_buffer_to_u64, ParameterError, PusParameters};
use rccn_usr::service::util::create_pus_tc;
use rccn_usr::service::{
    AcceptanceError, CommandExecutionStatus, CommandParseError, PusService, PusServiceBase,
};
use rccn_usr::parameter_management_service::command::{set_parameter_values, Command};
use rccn_usr::types::{EcssTmtcError, Sender};
use satrs::spacepackets::ecss::tm::PusTmReader;
use satrs::spacepackets::ecss::PusPacket;

fn test_parameters(a: u16, b: f32, c: i32) -> AggregateParameters<ParameterTable> {
    AggregateParameters::new(vec![ParameterTable::new(vec![
        Parameter { hash: 0xABCDEF00, value: ParameterValue::U16(a) },
        Parameter { hash: 0x00EFCDAB, value: ParameterValue::Single(b.to_bits()) },
        Parameter { hash: 0xF00BA400, value: ParameterValue::I32(c) },
    ])])
}

struct TestCommon {
    service: ParameterManagementService<AggregateParameters<ParameterTable>>,
    reply_base: PusServiceBase,
}

impl TestCommon {
    fn new(parameters: AggregateParameters<ParameterTable>) -> Self {
        TestCommon {
            service: ParameterManagementService::new(parameters),
            reply_base: PusServiceBase::new_reply(1, 20, 0, Sender { channel: 0 }, 0),
        }
    }

    fn take_tm(&mut self) -> Vec<TmPacket> {
        self.reply_base.tm_sender.take_sent()
    }
}

fn padded(writer: BitWriter) -> Vec<u8> {
    let mut tc_data = writer.into_bytes();
    tc_data.resize(128, 0);
    tc_data
}

fn assert_verif_tm(packets: &[TmPacket]) {
    let expected = [1u8, 3, 7];
    for (packet, subservice) in packets.iter().zip(expected) {
        let (tm, _) = PusTmReader::new(&packet.bytes, 8).unwrap();
        assert_eq!(tm.service(), 1);
        assert_eq!(tm.subservice(), subservice);
        assert_eq!(packet.service, 1);
        assert_eq!(packet.subservice, subservice);
    }
}

#[test]
fn test_read_end_to_end() {
    let mut common = TestCommon::new(test_parameters(0xc0ff, 1.337, -42));

    let mut tc_buffer = BitWriter::new(128);
    tc_buffer.write_bits(3, 16).unwrap();
    tc_buffer.write_bits(0xABCDEF00, 32).unwrap();
    tc_buffer.write_bits(0x00EFCDAB, 32).unwrap();
    tc_buffer.write_bits(0xF00BA400, 32).unwrap();
    let tc_data = padded(tc_buffer);

    let tc = create_pus_tc(1, 20, 1, &tc_data);

    assert_eq!(
        common.service.handle_tc_bytes(&mut common.reply_base, &tc).unwrap(),
        CommandExecutionStatus::Completed
    );

    let packets = common.take_tm();
    assert_eq!(packets.len(), 4);

    // Check verification TM
    assert_verif_tm(&packets[0..3]);

    // Check TM header
    let service_tm_bytes = &packets[3].bytes;
    let (service_tm, _) = PusTmReader::new(service_tm_bytes, 8).unwrap();
    assert_eq!(service_tm.service(), 20);
    assert_eq!(service_tm.subservice(), 2);

    // Check TM app data
    let mut reader = BitBuffer::wrap(service_tm.source_data());
    assert_eq!(reader.get_bits(16).unwrap(), 3); // number of parameters

    // first parameter
    assert_eq!(reader.get_bits(32).unwrap(), 0xABCDEF00);
    assert_eq!(reader.get_bits(16).unwrap(), 0xC0FF);

    // second parameter
    assert_eq!(reader.get_bits(32).unwrap(), 0x00EFCDAB);
    assert_eq!(
        reader.get_bits(32).unwrap(),
        src_buffer_to_u64(&(1.337_f32).to_be_bytes(), 32)
    );

    // third parameter
    assert_eq!(reader.get_bits(32).unwrap(), 0xF00BA400);
    assert_eq!(reader.get_bits(32).unwrap() as i32, -42i32);
    assert_eq!(reader.remaining(), 0);
}

#[test]
fn test_write_end_to_end() {
    let mut common = TestCommon::new(test_parameters(0xc0ff, 1.337, -42));

    let mut tc_buffer = BitWriter::new(128);
    tc_buffer.write_bits(3, 16).unwrap();
    tc_buffer.write_bits(0xABCDEF00, 32).unwrap();
    tc_buffer.write_bits(0x0000_0000_0000_babe, 64).unwrap();
    tc_buffer.write_bits(0x00EFCDAB, 32).unwrap();
    tc_buffer.write_bytes(&(337.1_f64.to_be_bytes())).unwrap();
    tc_buffer.write_bits(0xF00BA400, 32).unwrap();
    tc_buffer.write_bytes(&(-99i64).to_be_bytes()).unwrap();
    let tc_data = padded(tc_buffer);

    let tc = create_pus_tc(1, 20, 3, &tc_data);

    assert_eq!(
        common.service.handle_tc_bytes(&mut common.reply_base, &tc).unwrap(),
        CommandExecutionStatus::Completed
    );

    // Check verification TM
    let packets = common.take_tm();
    assert_eq!(packets.len(), 3);
    assert_verif_tm(&packets);

    // Check that the values have been changed
    let table = &common.service.parameters.sets[0];
    assert_eq!(table.value_of(0xABCDEF00), Some(ParameterValue::U16(0xBABE)));
    assert_eq!(table.value_of(0x00EFCDAB), Some(ParameterValue::Single(337.1_f32.to_bits())));
    assert_eq!(table.value_of(0xF00BA400), Some(ParameterValue::I32(-99)));
}

#[test]
fn unknown_subservice_is_answered_by_acceptance_failure() {
    let mut common = TestCommon::new(test_parameters(0xc0ff, 1.337, -42));
    let tc = create_pus_tc(1, 20, 99, &[0u8; 8]);

    let result = common.service.handle_tc_bytes(&mut common.reply_base, &tc);
    assert!(matches!(
        result,
        Err(AcceptanceError::CommandParseError(CommandParseError::UnknownSubservice(99)))
    ));

    let packets = common.take_tm();
    assert_eq!(packets.len(), 1);
    let (tm, _) = PusTmReader::new(&packets[0].bytes, 8).unwrap();
    assert_eq!(tm.service(), 1);
    assert_eq!(tm.subservice(), 2);
    assert_eq!(tm.source_data().len(), 5);
    assert_eq!(tm.source_data()[0..4], tc[0..4]);
    assert_eq!(tm.source_data()[4], 5);
}

#[test]
fn wrong_apid_is_passed_over_in_silence() {
    let mut common = TestCommon::new(test_parameters(0xc0ff, 1.337, -42));
    let tc = create_pus_tc(99, 20, 1, &[0u8, 0]);

    let result = common.service.handle_tc_bytes(&mut common.reply_base, &tc);
    assert!(matches!(result, Err(AcceptanceError::UnknownApid(99))));
    assert_eq!(common.take_tm().len(), 0);
    assert_eq!(common.reply_base.tm_sender.msg_counter, 0);
}

#[test]
fn wrong_service_is_passed_over_in_silence() {
    let mut common = TestCommon::new(test_parameters(0xc0ff, 1.337, -42));
    let tc = create_pus_tc(1, 17, 1, &[0u8, 0]);

    let result = common.service.handle_tc_bytes(&mut common.reply_base, &tc);
    assert!(matches!(result, Err(AcceptanceError::UnknownService(17))));
    assert_eq!(common.take_tm().len(), 0);
}

#[test]
fn bytes_that_are_no_telecommand_get_no_answer() {
    let mut common = TestCommon::new(test_parameters(0xc0ff, 1.337, -42));

    let result = common.service.handle_tc_bytes(&mut common.reply_base, &[1, 2, 3]);
    assert!(matches!(result, Err(AcceptanceError::PusError(_))));
    assert_eq!(common.take_tm().len(), 0);

    let mut tc = create_pus_tc(1, 20, 1, &[0u8, 0]);
    let last = tc.len() - 1;
    tc[last] ^= 0xFF;
    let result = common.service.handle_tc_bytes(&mut common.reply_base, &tc);
    assert!(matches!(result, Err(AcceptanceError::PusError(_))));
    assert_eq!(common.take_tm().len(), 0);
}

#[test]
fn application_data_without_count_is_no_command() {
    let mut common = TestCommon::new(test_parameters(0xc0ff, 1.337, -42));
    let tc = create_pus_tc(1, 20, 1, &[0u8]);

    let result = common.service.handle_tc_bytes(&mut common.reply_base, &tc);
    assert!(matches!(
        result,
        Err(AcceptanceError::CommandParseError(CommandParseError::Other))
    ));
    let packets = common.take_tm();
    assert_eq!(packets.len(), 1);
    assert_eq!((packets[0].service, packets[0].subservice), (1, 2));
}

#[test]
fn count_that_does_not_match_the_hashes_fails_to_start() {
    let mut common = TestCommon::new(test_parameters(0xc0ff, 1.337, -42));
    // Three parameters declared, two hashes held.
    let app_data = [0u8, 3, 0xAB, 0xCD, 0xEF, 0x00, 0x00, 0xEF, 0xCD, 0xAB];
    let tc = create_pus_tc(1, 20, 1, &app_data);

    let result = common.service.handle_tc_bytes(&mut common.reply_base, &tc);
    assert_eq!(result.unwrap(), CommandExecutionStatus::Failed);

    let packets = common.take_tm();
    assert_eq!(packets.len(), 2);
    assert_eq!((packets[0].service, packets[0].subservice), (1, 1));
    assert_eq!((packets[1].service, packets[1].subservice), (1, 4));
    let (tm, _) = PusTmReader::new(&packets[1].bytes, 8).unwrap();
    assert_eq!(tm.subservice(), 4);
    assert_eq!(tm.source_data()[4], 0);
}

#[test]
fn report_of_an_unknown_parameter_fails_completion() {
    let mut common = TestCommon::new(test_parameters(0xc0ff, 1.337, -42));
    let app_data = [0u8, 1, 0xDE, 0xAD, 0xBE, 0xEF];
    let tc = create_pus_tc(1, 20, 1, &app_data);

    let result = common.service.handle_tc_bytes(&mut common.reply_base, &tc);
    assert_eq!(result.unwrap(), CommandExecutionStatus::Failed);

    let packets = common.take_tm();
    let kinds: Vec<(u8, u8)> = packets.iter().map(|p| (p.service, p.subservice)).collect();
    assert_eq!(kinds, vec![(1, 1), (1, 3), (1, 8)]);
    let (tm, _) = PusTmReader::new(&packets[2].bytes, 8).unwrap();
    assert_eq!(tm.source_data()[4], 1);
}

#[test]
fn set_of_an_unknown_parameter_fails_completion_and_keeps_earlier_values() {
    let mut common = TestCommon::new(test_parameters(0xc0ff, 1.337, -42));
    let mut writer = BitWriter::new(64);
    writer.write_bits(2, 16).unwrap();
    writer.write_bits(0xABCDEF00, 32).unwrap();
    writer.write_bits(0x1_0001, 64).unwrap();
    writer.write_bits(0xDEADBEEF, 32).unwrap();
    writer.write_bits(7, 64).unwrap();
    let tc = create_pus_tc(1, 20, 3, &writer.into_bytes());

    let result = common.service.handle_tc_bytes(&mut common.reply_base, &tc);
    assert_eq!(result.unwrap(), CommandExecutionStatus::Failed);

    let packets = common.take_tm();
    let kinds: Vec<(u8, u8)> = packets.iter().map(|p| (p.service, p.subservice)).collect();
    assert_eq!(kinds, vec![(1, 1), (1, 3), (1, 8)]);
    let table = &common.service.parameters.sets[0];
    assert_eq!(table.value_of(0xABCDEF00), Some(ParameterValue::U16(1)));
    assert_eq!(table.value_of(0xF00BA400), Some(ParameterValue::I32(-42)));
}

#[test]
fn set_with_too_little_data_fails() {
    let mut service = ParameterManagementService::new(test_parameters(1, 0.0, 2));
    // The field of the parameter has seven bytes.
    let mut data = vec![0xAB, 0xCD, 0xEF, 0x00];
    data.extend_from_slice(&[0u8; 7]);
    assert!(!service.set_parameter_values(1, &data));
    assert_eq!(service.parameters.sets[0].value_of(0xABCDEF00), Some(ParameterValue::U16(1)));
    // No hash at all.
    assert!(!service.set_parameter_values(1, &vec![0xAB, 0xCD]));
    // Nothing to set.
    assert!(service.set_parameter_values(0, &vec![]));
}

#[test]
fn report_is_count_then_hash_and_value_for_each_parameter() {
    let service = ParameterManagementService::new(test_parameters(0xc0ff, 1.337, -42));
    let hashes = vec![0xF00BA400u32, 0xABCDEF00];
    let tm = service.report_parameter_values(2, &hashes).unwrap();
    assert_eq!(tm.subservice, 2);
    assert_eq!(
        tm.data,
        vec![0, 2, 0xF0, 0x0B, 0xA4, 0x00, 0xFF, 0xFF, 0xFF, 0xD6, 0xAB, 0xCD, 0xEF, 0x00, 0xC0, 0xFF]
    );
    // Only the first of the hashes is asked for.
    let tm = service.report_parameter_values(1, &hashes).unwrap();
    assert_eq!(tm.data, vec![0, 1, 0xF0, 0x0B, 0xA4, 0x00, 0xFF, 0xFF, 0xFF, 0xD6]);
    // An unknown hash.
    let r = service.report_parameter_values(1, &vec![5]);
    assert!(matches!(r, Err(ParameterError::UnknownParameter(5))));
}

#[test]
fn report_that_does_not_fit_is_a_write_error() {
    let entries: Vec<Parameter> =
        (0..64u32).map(|i| Parameter { hash: i, value: ParameterValue::U64(i as u64) }).collect();
    let service = ParameterManagementService::new(ParameterTable::new(entries));
    // 2 + 42 * 12 = 506 bytes fit into 512, one more entry does not.
    let fits: Vec<u32> = (0..42).collect();
    let tm = service.report_parameter_values(42, &fits).unwrap();
    assert_eq!(tm.data.len(), 506);
    let too_many: Vec<u32> = (0..43).collect();
    let r = service.report_parameter_values(43, &too_many);
    assert!(matches!(r, Err(ParameterError::WriteError(_))));
}

#[test]
fn report_then_set_changes_nothing_for_parameters_of_eight_bytes() {
    let entries = vec![
        Parameter { hash: 10, value: ParameterValue::U64(0xFEDC_BA98_7654_3210) },
        Parameter { hash: 11, value: ParameterValue::I64(-5) },
        Parameter { hash: 12, value: ParameterValue::Double(2.5f64.to_bits()) },
    ];
    let mut service = ParameterManagementService::new(ParameterTable::new(entries.clone()));
    let hashes = vec![12u32, 10, 11];
    let tm = service.report_parameter_values(3, &hashes).unwrap();
    assert!(service.set_parameter_values(3, &tm.data[2..].to_vec()));
    for entry in entries {
        assert_eq!(service.parameters.value_of(entry.hash), Some(entry.value));
    }
}

#[test]
fn report_then_set_misreads_narrow_parameters() {
    let mut service = ParameterManagementService::new(ParameterTable::new(vec![
        Parameter { hash: 1, value: ParameterValue::U16(0x0102) },
        Parameter { hash: 2, value: ParameterValue::U64(0x1112_1314_1516_1718) },
    ]));
    let tm = service.report_parameter_values(2, &vec![1, 2]).unwrap();
    // The field of the first parameter now ends with the first bytes of the second value.
    assert!(!service.set_parameter_values(2, &tm.data[2..].to_vec()));
    assert_eq!(service.parameters.value_of(1), Some(ParameterValue::U16(0x1112)));
}

#[test]
fn set_then_get_gives_the_trailing_bytes_of_the_field() {
    let field: u64 = 0x8182_8384_8586_8788;
    let cases: Vec<(ParameterValue, ParameterValue, Vec<u8>)> = vec![
        (ParameterValue::U8(0), ParameterValue::U8(0x88), vec![0x88]),
        (ParameterValue::U16(0), ParameterValue::U16(0x8788), vec![0x87, 0x88]),
        (ParameterValue::U32(0), ParameterValue::U32(0x8586_8788), vec![0x85, 0x86, 0x87, 0x88]),
        (ParameterValue::U64(0), ParameterValue::U64(field), field.to_be_bytes().to_vec()),
        (ParameterValue::I8(0), ParameterValue::I8(-120), vec![0x88]),
        (ParameterValue::I16(0), ParameterValue::I16(-30840), vec![0x87, 0x88]),
        (ParameterValue::I32(0), ParameterValue::I32(0x8586_8788u32 as i32), vec![0x85, 0x86, 0x87, 0x88]),
        (ParameterValue::I64(0), ParameterValue::I64(field as i64), field.to_be_bytes().to_vec()),
        (ParameterValue::Double(0), ParameterValue::Double(field), field.to_be_bytes().to_vec()),
        (
            ParameterValue::Single(0),
            ParameterValue::Single((f64::from_bits(field) as f32).to_bits()),
            (f64::from_bits(field) as f32).to_be_bytes().to_vec(),
        ),
    ];
    for (declared, expected, bytes) in cases {
        let mut table = ParameterTable::new(vec![Parameter { hash: 7, value: declared }]);
        let data = field.to_be_bytes();
        let mut buffer = BitBuffer::wrap(&data);
        assert!(table.set_parameter_from_be_bytes(7, &mut buffer));
        assert_eq!(buffer.remaining(), 0);
        assert_eq!(table.value_of(7), Some(expected));
        let mut writer = BitWriter::new(16);
        assert_eq!(table.get_parameter_as_be_bytes(7, &mut writer), Ok(bytes.len() * 8));
        assert_eq!(writer.into_bytes(), bytes);
        assert_eq!(table.get_parameter_size(7), None);
    }
}

#[test]
fn union_asks_its_sets_in_order() {
    let first = ParameterTable::new(vec![Parameter { hash: 1, value: ParameterValue::U64(100) }]);
    let second = ParameterTable::new(vec![
        Parameter { hash: 1, value: ParameterValue::U8(9) },
        Parameter { hash: 2, value: ParameterValue::U16(0x0203) },
    ]);
    let mut all = AggregateParameters::new(vec![first, second]);

    // The first set that reports the hash without error wins.
    let mut writer = BitWriter::new(8);
    assert_eq!(all.get_parameter_as_be_bytes(1, &mut writer), Ok(64));
    assert_eq!(writer.into_bytes(), vec![0, 0, 0, 0, 0, 0, 0, 100]);
    // Where the value of the first set does not fit, the next set is asked.
    let mut writer = BitWriter::new(4);
    assert_eq!(all.get_parameter_as_be_bytes(1, &mut writer), Ok(8));
    assert_eq!(writer.into_bytes(), vec![9]);
    // Where no set reports the hash, it is unknown, whatever the error was.
    let mut writer = BitWriter::new(1);
    assert_eq!(
        all.get_parameter_as_be_bytes(2, &mut writer),
        Err(ParameterError::UnknownParameter(2))
    );
    assert_eq!(writer.len(), 0);

    // The first set that knows the hash is the one that is set.
    let data = 0x0102_0304_0506_0708u64.to_be_bytes();
    let mut buffer = BitBuffer::wrap(&data);
    assert!(all.set_parameter_from_be_bytes(1, &mut buffer));
    assert_eq!(all.sets[0].value_of(1), Some(ParameterValue::U64(0x0102_0304_0506_0708)));
    assert_eq!(all.sets[1].value_of(1), Some(ParameterValue::U8(9)));
    let mut buffer = BitBuffer::wrap(&data);
    assert!(!all.set_parameter_from_be_bytes(3, &mut buffer));
    assert_eq!(buffer.remaining(), 8);
    assert_eq!(all.get_parameter_size(1), None);
}

#[test]
fn first_declaration_of_a_hash_decides() {
    let mut table = ParameterTable::new(vec![
        Parameter { hash: 4, value: ParameterValue::U8(1) },
        Parameter { hash: 4, value: ParameterValue::U32(2) },
    ]);
    assert_eq!(table.value_of(4), Some(ParameterValue::U8(1)));
    let data = [0u8, 0, 0, 0, 0, 0, 0, 0x55];
    let mut buffer = BitBuffer::wrap(&data);
    assert!(table.set_parameter_from_be_bytes(4, &mut buffer));
    assert_eq!(table.entries[0].value, ParameterValue::U8(0x55));
    assert_eq!(table.entries[1].value, ParameterValue::U32(2));
    assert_eq!(table.value_of(5), None);
}

#[test]
fn src_buffer_to_u64_keeps_the_low_bits() {
    assert_eq!(src_buffer_to_u64(&[0x12, 0x34], 16), 0x1234);
    assert_eq!(src_buffer_to_u64(&[0x12, 0x34], 8), 0x34);
    assert_eq!(src_buffer_to_u64(&[0x12, 0x34], 4), 0x4);
    assert_eq!(src_buffer_to_u64(&[0xFF; 8], 64), u64::MAX);
    assert_eq!(src_buffer_to_u64(&[0xFF; 8], 63), u64::MAX >> 1);
    assert_eq!(src_buffer_to_u64(&[0xFF; 8], 0), 0);
    assert_eq!(src_buffer_to_u64(&[], 64), 0);
}

#[test]
fn a_telecommand_that_is_passed_over_leaves_the_parameters() {
    let mut common = TestCommon::new(test_parameters(0xc0ff, 1.337, -42));
    let mut writer = BitWriter::new(16);
    writer.write_bits(1, 16).unwrap();
    writer.write_bits(0xABCDEF00, 32).unwrap();
    writer.write_bits(7, 64).unwrap();
    let data = writer.into_bytes();
    for tc in [create_pus_tc(99, 20, 3, &data), create_pus_tc(1, 21, 3, &data), create_pus_tc(1, 20, 99, &data)] {
        assert!(common.service.handle_tc_bytes(&mut common.reply_base, &tc).is_err());
        let table = &common.service.parameters.sets[0];
        assert_eq!(table.value_of(0xABCDEF00), Some(ParameterValue::U16(0xc0ff)));
        assert_eq!(table.value_of(0x00EFCDAB), Some(ParameterValue::Single(1.337f32.to_bits())));
        assert_eq!(table.value_of(0xF00BA400), Some(ParameterValue::I32(-42)));
    }
    // The same telecommand for this service does set the parameter.
    let tc = create_pus_tc(1, 20, 3, &data);
    assert_eq!(
        common.service.handle_tc_bytes(&mut common.reply_base, &tc).unwrap(),
        CommandExecutionStatus::Completed
    );
    assert_eq!(common.service.parameters.sets[0].value_of(0xABCDEF00), Some(ParameterValue::U16(7)));
}

#[test]
fn a_command_is_not_executed_where_its_acceptance_could_not_be_reported() {
    let mut common = TestCommon::new(test_parameters(1, 0.0, 2));
    let mut data = vec![0xAB, 0xCD, 0xEF, 0x00];
    data.extend_from_slice(&9u64.to_be_bytes());
    let command = || {
        Command::SetParameterValues(set_parameter_values::Args {
            number_of_parameters: 1,
            parameter_set_data: data.clone(),
        })
    };
    let r = common.service.handle_accepted(
        &mut common.reply_base,
        Err(EcssTmtcError::CantSendDirectTm),
        command(),
    );
    assert!(matches!(r, Err(AcceptanceError::SendVerificationTmFailed)));
    assert!(common.reply_base.tm_sender.sent.is_empty());
    assert_eq!(common.service.parameters.sets[0].value_of(0xABCDEF00), Some(ParameterValue::U16(1)));

    let tc = rccn_usr::packets::PusTc {
        request_id: 7,
        apid: 1,
        service: 20,
        subservice: 3,
        app_data: vec![],
    };
    let token = common.reply_base.add_tc(&tc);
    let sent = common.reply_base.send_acceptance_success(token);
    let r = common.service.handle_accepted(&mut common.reply_base, sent, command());
    assert!(matches!(r, Ok(CommandExecutionStatus::Completed)));
    assert_eq!(common.service.parameters.sets[0].value_of(0xABCDEF00), Some(ParameterValue::U16(9)));
    let kinds: Vec<(u8, u8)> =
        common.take_tm().iter().map(|p| (p.service, p.subservice)).collect();
    assert_eq!(kinds, vec![(1, 1), (1, 3), (1, 7)]);
}

#[test]
fn in_a_union_only_the_first_set_that_declares_the_hash_is_written() {
    let set = |value: u64| {
        ParameterTable::new(vec![
            Parameter { hash: 1, value: ParameterValue::U64(value) },
            Parameter { hash: 2, value: ParameterValue::U64(value + 1) },
        ])
    };
    let other = ParameterTable::new(vec![Parameter { hash: 3, value: ParameterValue::U8(3) }]);
    let mut all = AggregateParameters::new(vec![other, set(10), set(20), set(30)]);
    let data = 99u64.to_be_bytes();
    let mut buffer = BitBuffer::wrap(&data);
    assert!(all.set_parameter_from_be_bytes(2, &mut buffer));
    assert_eq!(buffer.remaining(), 0);
    assert_eq!(all.sets.len(), 4);
    assert_eq!(all.sets[0].value_of(3), Some(ParameterValue::U8(3)));
    assert_eq!(all.sets[1].value_of(2), Some(ParameterValue::U64(99)));
    assert_eq!(all.sets[1].value_of(1), Some(ParameterValue::U64(10)));
    assert_eq!(all.sets[2].value_of(2), Some(ParameterValue::U64(21)));
    assert_eq!(all.sets[3].value_of(2), Some(ParameterValue::U64(31)));
}
