//! Helpers for building telecommands.

use crate::packets::{
    pus_tc_bytes,
    write_pus_tc,
    MAX_APID,
    MAX_TC_APP_DATA,
    SEQUENCE_COUNT,
    TC_ACK_FLAGS,
    TC_SOURCE_ID,
};
use vstd::prelude::*;

verus! {

/// The bytes of a PUS telecommand for the given application, service and
/// subservice that carries `data`, with its checksum. The telecommand has the
/// sequence count and the source zero and asks for every report.
pub fn create_pus_tc(apid: u16, service: u8, subservice: u8, data: &[u8]) -> (bytes: Vec<u8>)
    requires
        apid <= MAX_APID,
        data@.len() <= MAX_TC_APP_DATA,
    ensures
        bytes@ == pus_tc_bytes(
            apid,
            SEQUENCE_COUNT,
            service,
            subservice,
            TC_ACK_FLAGS,
            TC_SOURCE_ID,
            data@,
        ),
{
    write_pus_tc(apid, SEQUENCE_COUNT, service, subservice, TC_ACK_FLAGS, TC_SOURCE_ID, data)
}

} // verus!
