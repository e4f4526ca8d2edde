//! The commands of the parameter management service and how they are read from a
//! telecommand.

pub mod report_parameter_values;
pub mod set_parameter_values;

use crate::bitbuffer::BitBuffer;
use crate::endian::{be_value, lemma_be_value_bound, lemma_pow256_values};
use crate::packets::{PusTc, PusTcView};
use crate::service::{CommandParseError, CommandParseResult, ServiceCommand};
use crate::types::copy_bytes;
use vstd::prelude::*;

verus! {

/// The subservice that asks for a report of parameter values.
pub const REPORT_PARAMETER_VALUES: u8 = 1;

/// The subservice of the report of parameter values.
pub const PARAMETER_VALUE_REPORT: u8 = 2;

/// The subservice that sets parameter values.
pub const SET_PARAMETER_VALUES: u8 = 3;

pub enum Command {
    /// Request to report the values of the named parameters.
    ReportParameterValues(report_parameter_values::Args),
    /// Request to set a number of parameters to new values. How the data divides
    /// among the parameters depends on their kinds, which the service knows.
    SetParameterValues(set_parameter_values::Args),
}

/// The number of parameters that the application data of a request declares: its
/// first two bytes.
pub open spec fn declared_count(app_data: Seq<u8>) -> u16 {
    be_value(app_data.take(2)) as u16
}

/// The number of hashes that a report request holds: as many as it declares, or as
/// many whole hashes as follow the count where those are fewer.
pub open spec fn hash_count(app_data: Seq<u8>) -> nat {
    let held = ((app_data.len() - 2) / 4) as nat;
    if declared_count(app_data) as nat <= held {
        declared_count(app_data) as nat
    } else {
        held
    }
}

/// The hash at place `i` of a report request.
pub open spec fn hash_at(app_data: Seq<u8>, i: int) -> u32 {
    be_value(app_data.subrange(2 + 4 * i, 6 + 4 * i)) as u32
}

/// The hashes that a report request holds.
pub open spec fn requested_hashes(app_data: Seq<u8>) -> Seq<u32> {
    Seq::new(hash_count(app_data), |i: int| hash_at(app_data, i))
}

impl Command {
    /// Reads the command of a telecommand.
    ///
    /// Subservice 1 asks for a report and subservice 3 sets values; any other
    /// subservice is unknown. Either command starts with a 16-bit count, and there
    /// is no command where the application data is too short to hold it.
    #[verifier::loop_isolation(false)]
    pub fn parse(tc: &PusTc) -> (r: CommandParseResult<Command>)
        ensures
            r.is_ok() <==> Self::parse_outcome(tc@).is_ok(),
            r matches Err(e) ==> Self::parse_outcome(tc@) == Err::<(), CommandParseError>(e),
            r matches Ok(cmd) ==> cmd.is_command_of(tc@),
    {
        let buffer = tc.app_data.as_slice();
        let mut bb = BitBuffer::wrap(buffer);
        if tc.subservice != REPORT_PARAMETER_VALUES && tc.subservice != SET_PARAMETER_VALUES {
            return Err(CommandParseError::UnknownSubservice(tc.subservice));
        }
        let n: u16 = match bb.get_bits(16) {
            Some(v) => {
                proof {
                    lemma_be_value_bound(buffer@.take(2));
                    lemma_pow256_values();
                }
                v as u16
            },
            None => {
                return Err(CommandParseError::Other);
            },
        };
        if tc.subservice == REPORT_PARAMETER_VALUES {
            let mut hashes: Vec<u32> = Vec::new();
            let mut i: u16 = 0;
            while i < n
                invariant
                    i <= n,
                    n == declared_count(buffer@),
                    buffer@.len() >= 2,
                    bb@ == buffer@.skip(2 + 4 * i),
                    2 + 4 * i <= buffer@.len(),
                    hashes@ =~= Seq::new(i as nat, |k: int| hash_at(buffer@, k)),
                decreases n - i,
            {
                match bb.get_bits(32) {
                    Some(h) => {
                        proof {
                            let field = buffer@.skip(2 + 4 * i).take(4);
                            assert(field =~= buffer@.subrange(2 + 4 * i, 6 + 4 * i));
                            lemma_be_value_bound(field);
                            lemma_pow256_values();
                            assert(buffer@.skip(2 + 4 * i).skip(4) =~= buffer@.skip(2 + 4 * (i + 1)));
                        }
                        hashes.push(h as u32);
                    },
                    None => {
                        proof {
                            assert(hash_count(buffer@) == i);
                        }
                        return Ok(
                            Command::ReportParameterValues(
                                report_parameter_values::Args {
                                    number_of_parameters: n,
                                    parameter_hashes: hashes,
                                },
                            ),
                        );
                    },
                }
                i = i + 1;
            }
            proof {
                assert(hash_count(buffer@) == n);
            }
            Ok(
                Command::ReportParameterValues(
                    report_parameter_values::Args {
                        number_of_parameters: n,
                        parameter_hashes: hashes,
                    },
                ),
            )
        } else {
            let data = vstd::slice::slice_subrange(buffer, 2, buffer.len());
            proof {
                assert(data@ =~= buffer@.skip(2));
            }
            Ok(
                Command::SetParameterValues(
                    set_parameter_values::Args {
                        number_of_parameters: n,
                        parameter_set_data: copy_bytes(data),
                    },
                ),
            )
        }
    }
}

impl ServiceCommand for Command {
    open spec fn parse_outcome(tc: PusTcView) -> Result<(), CommandParseError> {
        if tc.subservice != REPORT_PARAMETER_VALUES && tc.subservice != SET_PARAMETER_VALUES {
            Err(CommandParseError::UnknownSubservice(tc.subservice))
        } else if tc.app_data.len() < 2 {
            Err(CommandParseError::Other)
        } else {
            Ok(())
        }
    }

    open spec fn is_command_of(&self, tc: PusTcView) -> bool {
        match self {
            Command::ReportParameterValues(args) => {
                &&& tc.subservice == REPORT_PARAMETER_VALUES
                &&& args.number_of_parameters == declared_count(tc.app_data)
                &&& args.parameter_hashes@ == requested_hashes(tc.app_data)
            },
            Command::SetParameterValues(args) => {
                &&& tc.subservice == SET_PARAMETER_VALUES
                &&& args.number_of_parameters == declared_count(tc.app_data)
                &&& args.parameter_set_data@ == tc.app_data.skip(2)
            },
        }
    }

    fn from_pus_tc(tc: &PusTc) -> (r: CommandParseResult<Self>) {
        Command::parse(tc)
    }
}

} // verus!
