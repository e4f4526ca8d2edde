use rccn_usr::packets::PusTc;
use rccn_usr::parameter_management_service::command::Command;
use rccn_usr::service::{CommandParseError, ServiceCommand};

fn tc(subservice: u8, app_data: &[u8]) -> PusTc {
    PusTc { request_id: 0, apid: 1, service: 20, subservice, app_data: app_data.to_vec() }
}

#[test]
fn report_request_holds_its_count_and_hashes() {
    let data = [0u8, 2, 0xAB, 0xCD, 0xEF, 0x00, 0x00, 0xEF, 0xCD, 0xAB, 0x99];
    match Command::from_pus_tc(&tc(1, &data)) {
        Ok(Command::ReportParameterValues(args)) => {
            assert_eq!(args.number_of_parameters, 2);
            assert_eq!(args.parameter_hashes, vec![0xABCDEF00, 0x00EFCDAB]);
        }
        _ => panic!("no report request"),
    }
    // Fewer whole hashes than the count says.
    match Command::parse(&tc(1, &data[0..9])) {
        Ok(Command::ReportParameterValues(args)) => {
            assert_eq!(args.number_of_parameters, 2);
            assert_eq!(args.parameter_hashes, vec![0xABCDEF00]);
        }
        _ => panic!("no report request"),
    }
    match Command::parse(&tc(1, &[0, 0])) {
        Ok(Command::ReportParameterValues(args)) => {
            assert_eq!(args.number_of_parameters, 0);
            assert!(args.parameter_hashes.is_empty());
        }
        _ => panic!("no report request"),
    }
}

#[test]
fn set_request_holds_its_count_and_the_rest() {
    let data = [0x01u8, 0x00, 9, 8, 7];
    match Command::from_pus_tc(&tc(3, &data)) {
        Ok(Command::SetParameterValues(args)) => {
            assert_eq!(args.number_of_parameters, 256);
            assert_eq!(args.parameter_set_data, vec![9, 8, 7]);
        }
        _ => panic!("no set request"),
    }
}

#[test]
fn other_subservices_and_short_data_are_no_commands() {
    assert!(matches!(
        Command::from_pus_tc(&tc(2, &[0, 0])),
        Err(CommandParseError::UnknownSubservice(2))
    ));
    assert!(matches!(
        Command::from_pus_tc(&tc(99, &[])),
        Err(CommandParseError::UnknownSubservice(99))
    ));
    assert!(matches!(Command::from_pus_tc(&tc(1, &[0])), Err(CommandParseError::Other)));
    assert!(matches!(Command::from_pus_tc(&tc(3, &[])), Err(CommandParseError::Other)));
}
