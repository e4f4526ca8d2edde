use crossbeam_channel::bounded;
use rccn_usr::config::VirtualChannel;
use rccn_usr::parameter_management_service::parameters::{Parameter, ParameterTable, ParameterValue};
use rccn_usr::parameter_management_service::service::ParameterManagementService;
use rccn_usr::pus_app::PusApp;
use rccn_usr::service::util::create_pus_tc;
use rccn_usr::service::{AcceptanceError, CommandExecutionStatus};
use rccn_usr::transport::config::{RxTransport, TxTransport, UdpRxTransport, UdpTxTransport};
use rccn_usr::types::Sender;
use satrs::spacepackets::ecss::tm::PusTmReader;
use satrs::spacepackets::ecss::tm::GenericPusTmSecondaryHeader;

fn test_service() -> ParameterManagementService<ParameterTable> {
    ParameterManagementService::new(ParameterTable::new(vec![Parameter {
        hash: 0x1234,
        value: ParameterValue::U32(42),
    }]))
}

fn report_request() -> Vec<u8> {
    let mut tc_data = [0u8; 128];
    tc_data[0] = 0; // Number of parameters MSB
    tc_data[1] = 1; // Number of parameters LSB
    tc_data[2] = 0; // Parameter hash
    tc_data[3] = 0;
    tc_data[4] = 0x12;
    tc_data[5] = 0x34;
    create_pus_tc(1, 20, 1, &tc_data)
}

#[test]
fn test_register_and_handle_service() {
    let (tm_tx, tm_rx) = bounded(4);

    // Create PusApp and register ParameterManagementService
    let mut app = PusApp::new(1, "test");
    app.register_service(20, test_service());

    // Create a test TC for parameter reporting
    let tc_bytes = report_request();

    // Handle TC
    let (results, replies) = app.handle_tc(&tc_bytes, Sender { channel: 0 });
    for packet in replies.sent.iter() {
        tm_tx.send(packet.bytes.clone()).unwrap();
    }

    // Check that a service returned Completed
    assert!(results
        .iter()
        .any(|r| matches!(r, Ok(CommandExecutionStatus::Completed))));

    // Check that 4 messages were sent to TM rx (accepted, started, completed, parameter TM)
    assert_eq!(tm_rx.len(), 4);
}

#[test]
fn message_counter_counts_every_packet_across_telecommands() {
    let mut app = PusApp::new(1, "test");
    app.register_service(20, test_service());
    let tc_bytes = report_request();

    let mut expected: u16 = 0;
    for _ in 0..3 {
        let (_, replies) = app.handle_tc(&tc_bytes, Sender { channel: 5 });
        assert_eq!(replies.channel, Sender { channel: 5 });
        assert_eq!(replies.sent.len(), 4);
        for packet in replies.sent.iter() {
            assert_eq!(packet.msg_counter, expected);
            let (tm, _) = PusTmReader::new(&packet.bytes, 8).unwrap();
            assert_eq!(tm.msg_counter(), expected);
            expected += 1;
        }
        assert_eq!(replies.msg_counter, expected);
    }
}

#[test]
fn every_service_is_handed_the_telecommand() {
    let mut app = PusApp::new(1, "test");
    app.register_service(17, test_service());
    app.register_service(20, test_service());
    app.register_service(21, test_service());

    let (results, replies) = app.handle_tc(&report_request(), Sender { channel: 0 });
    assert_eq!(results.len(), 3);
    assert!(matches!(results[0], Err(AcceptanceError::UnknownService(20))));
    assert!(matches!(results[1], Ok(CommandExecutionStatus::Completed)));
    assert!(matches!(results[2], Err(AcceptanceError::UnknownService(20))));
    let kinds: Vec<(u8, u8)> = replies.sent.iter().map(|p| (p.service, p.subservice)).collect();
    assert_eq!(kinds, vec![(1, 1), (1, 3), (1, 7), (20, 2)]);
}

#[test]
fn replies_go_to_the_virtual_channel_of_the_telecommand() {
    let mut app = PusApp::new(1, "test");
    app.register_service(20, test_service());
    let both = VirtualChannel {
        id: 3,
        name: "both".to_string(),
        splitter: None,
        tx_transport: Some(TxTransport::Udp(UdpTxTransport { send: "127.0.0.1:9000".to_string() })),
        rx_transport: Some(RxTransport::Udp(UdpRxTransport { listen: "127.0.0.1:9001".to_string() })),
    };
    let rx_only = VirtualChannel {
        id: 4,
        name: "rx".to_string(),
        splitter: None,
        tx_transport: None,
        rx_transport: Some(RxTransport::Udp(UdpRxTransport { listen: "127.0.0.1:9002".to_string() })),
    };
    app.add_virtual_channel(&both, |_| true).unwrap();
    app.add_virtual_channel(&rx_only, |_| true).unwrap();

    let expected = *app.transport_manager().tx_map().get(&3).unwrap();
    let (results, replies) = app.handle_vc_data(3, &report_request()).unwrap();
    assert_eq!(results.len(), 1);
    assert_eq!(replies.channel, expected);
    assert_eq!(replies.sent.len(), 4);
    assert!(app.handle_vc_data(4, &report_request()).is_none());
    assert!(app.handle_vc_data(9, &report_request()).is_none());
}

#[test]
fn a_telecommand_that_was_read_is_dispatched_like_its_bytes() {
    let mut app = PusApp::new(1, "test");
    app.register_service(20, test_service());
    let tc = rccn_usr::packets::PusTc {
        request_id: 0x1801_C000,
        apid: 1,
        service: 20,
        subservice: 1,
        app_data: vec![0, 1, 0, 0, 0x12, 0x34],
    };
    let (results, replies) = app.handle_pus_tc(&tc, Sender { channel: 2 });
    assert_eq!(results.len(), 1);
    assert!(matches!(results[0], Ok(CommandExecutionStatus::Completed)));
    let kinds: Vec<(u8, u8)> = replies.sent.iter().map(|p| (p.service, p.subservice)).collect();
    assert_eq!(kinds, vec![(1, 1), (1, 3), (1, 7), (20, 2)]);
    assert!(replies.sent.iter().all(|p| p.apid == 1));
    assert_eq!(replies.sent[3].source_data, vec![0, 1, 0, 0, 0x12, 0x34, 0, 0, 0, 42]);
    assert_eq!(replies.sent[0].source_data, vec![0x18, 0x01, 0xC0, 0x00]);

    // The same through the bytes: the counter goes on.
    let (results, replies) = app.handle_tc(&report_request(), Sender { channel: 2 });
    assert!(matches!(results[0], Ok(CommandExecutionStatus::Completed)));
    assert_eq!(replies.sent[0].msg_counter, 4);

    // Bytes that are no telecommand: one error for each service, nothing queued.
    app.register_service(21, test_service());
    let (results, replies) = app.handle_tc(&[1, 2, 3], Sender { channel: 2 });
    assert_eq!(results.len(), 2);
    assert!(results.iter().all(|r| matches!(r, Err(AcceptanceError::PusError(_)))));
    assert!(replies.sent.is_empty());
    assert_eq!(replies.msg_counter, 8);
}
