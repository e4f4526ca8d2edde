//! The parameter management service: it reports the values of parameters
//! (subservice 1, answered by a packet of subservice 2) and sets them
//! (subservice 3).

use crate::bitbuffer::{BitBuffer, BitWriter, WriteError};
use crate::endian::{be_bytes, be_value, lemma_be_bytes_len, lemma_be_value_bound, lemma_pow256_values};
use crate::packets::{verification_failure, TmContent};
use crate::parameter_management_service::command::{
    report_parameter_values,
    set_parameter_values,
    Command,
    PARAMETER_VALUE_REPORT,
};
use crate::parameter_management_service::parameters::ParameterValue;
use crate::parameter_management_service::{ParameterError, PusParameters};
use crate::service::{
    answered_at_once,
    lemma_log_joined,
    lemma_log_pushed,
    answered_status,
    completed_at_once,
    AcceptanceError,
    AcceptanceResult,
    AcceptedTc,
    CommandExecutionStatus,
    PusService,
    PusServiceBase,
    SubserviceTmData,
};
use vstd::prelude::*;

verus! {

/// The most bytes that a report of parameter values takes.
pub const REPORT_CAPACITY: usize = 512;

/// The failure code of a report request whose count does not match its hashes.
pub const COUNT_MISMATCH: u8 = 0;

/// The entries of a report of the given hashes when `room` bytes are left: for each
/// hash its four bytes and then the bytes of its value. The first hash that cannot
/// be reported, or does not fit, decides the error.
pub open spec fn report_entries<P: PusParameters>(parameters: &P, hashes: Seq<u32>, room: nat) -> Result<
    Seq<u8>,
    ParameterError,
>
    decreases hashes.len(),
{
    if hashes.len() == 0 {
        Ok(Seq::empty())
    } else if room < 4 {
        Err(ParameterError::WriteError(WriteError {  }))
    } else {
        match parameters.report_outcome(hashes[0], (room - 4) as nat) {
            Err(e) => Err(e),
            Ok(v) => match report_entries(
                parameters,
                hashes.drop_first(),
                (room - 4 - v.width()) as nat,
            ) {
                Err(e) => Err(e),
                Ok(rest) => Ok(be_bytes(hashes[0] as nat, 4) + v.be_repr() + rest),
            },
        }
    }
}

/// The source data of a report of the first `n` of the given hashes: the count on
/// two bytes, then the entries.
pub open spec fn report_of<P: PusParameters>(parameters: &P, n: u16, hashes: Seq<u32>) -> Result<
    Seq<u8>,
    ParameterError,
> {
    match report_entries(parameters, hashes.take(n as int), (REPORT_CAPACITY - 2) as nat) {
        Err(e) => Err(e),
        Ok(entries) => Ok(be_bytes(n as nat, 2) + entries),
    }
}

/// The declared parameters, each under its hash.
pub open spec fn declared<P: PusParameters>(parameters: &P) -> Map<u32, ParameterValue> {
    Map::new(|h: u32| parameters.lookup(h).is_some(), |h: u32| parameters.lookup(h).unwrap())
}

/// What storing `n` parameters from `data` makes of the parameters `m`, and whether
/// all of them were stored.
///
/// Each parameter takes a hash of four bytes and a field of eight. Storing ends
/// without success at the first hash that is not declared, and where the data ends
/// too early; what was stored until then stays.
pub open spec fn stored(m: Map<u32, ParameterValue>, n: nat, data: Seq<u8>) -> (
    Map<u32, ParameterValue>,
    bool,
)
    decreases n,
{
    if n == 0 {
        (m, true)
    } else if data.len() < 4 {
        (m, false)
    } else {
        let hash = be_value(data.take(4)) as u32;
        if !m.contains_key(hash) || data.len() < 12 {
            (m, false)
        } else {
            let field = be_value(data.subrange(4, 12)) as u64;
            stored(m.insert(hash, m[hash].narrowed(field)), (n - 1) as nat, data.skip(12))
        }
    }
}

/// The entries of a report of parameters of eight bytes each, set again, leave the
/// parameters as they are.
proof fn lemma_entries_then_set<P: PusParameters>(parameters: &P, hashes: Seq<u32>, room: nat)
    requires
        12 * hashes.len() <= room,
        forall|i: int|
            0 <= i < hashes.len() ==> parameters.lookup(#[trigger] hashes[i]).is_some()
                && parameters.lookup(hashes[i]).unwrap().width() == 8,
    ensures
        report_entries(parameters, hashes, room) matches Ok(entries) && entries.len() == 12
            * hashes.len() && stored(declared(parameters), hashes.len(), entries) == (
            declared(parameters),
            true,
        ),
    decreases hashes.len(),
{
    if hashes.len() > 0 {
        let hash = hashes[0];
        let value = parameters.lookup(hash).unwrap();
        let tail = hashes.drop_first();
        parameters.lemma_declared_is_reported(hash, (room - 4) as nat);
        assert forall|i: int| 0 <= i < tail.len() implies parameters.lookup(
            #[trigger] tail[i],
        ).is_some() && parameters.lookup(tail[i]).unwrap().width() == 8 by {
            assert(tail[i] == hashes[i + 1]);
        }
        lemma_entries_then_set(parameters, tail, (room - 12) as nat);
        let rest = report_entries(parameters, tail, (room - 12) as nat).unwrap();
        let entries = be_bytes(hash as nat, 4) + value.be_repr() + rest;
        assert(report_entries(parameters, hashes, room) == Ok::<Seq<u8>, ParameterError>(entries));
        lemma_be_bytes_len(hash as nat, 4);
        lemma_be_bytes_len(value.raw(), 8);
        lemma_pow256_values();
        assert(entries.take(4) =~= be_bytes(hash as nat, 4));
        crate::endian::lemma_be_value_of_bytes(hash as nat, 4);
        vstd::arithmetic::div_mod::lemma_small_mod(hash as nat, 0x1_0000_0000);
        assert(entries.subrange(4, 12) =~= value.be_repr());
        crate::parameter_management_service::parameters::lemma_narrowed_from_own_bytes(value);
        assert(entries.skip(12) =~= rest);
        let m = declared(parameters);
        assert(m.contains_key(hash));
        assert(m.insert(hash, value) =~= m);
    }
}

/// A report, set again, changes nothing: where every hash names a parameter of
/// eight bytes and the report has room for all of them, storing the entries of the
/// report succeeds and leaves every parameter as it is.
pub proof fn lemma_report_then_set<P: PusParameters>(parameters: &P, hashes: Seq<u32>)
    requires
        2 + 12 * hashes.len() <= REPORT_CAPACITY,
        forall|i: int|
            0 <= i < hashes.len() ==> parameters.lookup(#[trigger] hashes[i]).is_some()
                && parameters.lookup(hashes[i]).unwrap().width() == 8,
    ensures
        report_of(parameters, hashes.len() as u16, hashes) matches Ok(data) && stored(
            declared(parameters),
            hashes.len(),
            data.skip(2),
        ) == (declared(parameters), true),
{
    let n = hashes.len() as u16;
    assert(hashes.take(n as int) =~= hashes);
    lemma_entries_then_set(parameters, hashes, (REPORT_CAPACITY - 2) as nat);
    let entries = report_entries(parameters, hashes, (REPORT_CAPACITY - 2) as nat).unwrap();
    lemma_be_bytes_len(n as nat, 2);
    assert((be_bytes(n as nat, 2) + entries).skip(2) =~= entries);
}

/// The parameter management service over a set of parameters.
pub struct ParameterManagementService<P: PusParameters> {
    pub parameters: P,
}

impl<P: PusParameters> ParameterManagementService<P> {
    /// The service over the given parameters.
    pub fn new(parameters: P) -> (service: Self)
        ensures
            service.parameters == parameters,
    {
        ParameterManagementService { parameters }
    }

    /// Builds the report of the first `n` of the given hashes: the data of a packet
    /// of subservice 2.
    pub fn report_parameter_values(&self, n: u16, hashes: &Vec<u32>) -> (r: Result<
        SubserviceTmData,
        ParameterError,
    >)
        requires
            n <= hashes@.len(),
        ensures
            match report_of(&self.parameters, n, hashes@) {
                Ok(data) => r matches Ok(tm) && tm.subservice == PARAMETER_VALUE_REPORT && tm.data@
                    == data && data.len() <= REPORT_CAPACITY,
                Err(e) => r matches Err(f) && f == e,
            },
    {
        let mut writer = BitWriter::new(REPORT_CAPACITY);
        let ghost all = hashes@.take(n as int);
        match writer.write_bits(n as u64, 16) {
            Ok(()) => {},
            Err(e) => {
                return Err(ParameterError::WriteError(e));
            },
        }
        proof {
            lemma_be_bytes_len(n as nat, 2);
            assert(writer@ =~= be_bytes(n as nat, 2));
            assert(all.skip(0) =~= all);
        }
        let mut i: u16 = 0;
        while i < n
            invariant
                i <= n <= hashes@.len(),
                all == hashes@.take(n as int),
                writer@.len() + writer.room() == REPORT_CAPACITY,
                writer@.len() >= 2,
                writer@.take(2) == be_bytes(n as nat, 2),
                match report_entries(&self.parameters, all.skip(i as int), writer.room()) {
                    Ok(rest) => report_entries(
                        &self.parameters,
                        all,
                        (REPORT_CAPACITY - 2) as nat,
                    ) == Ok::<Seq<u8>, ParameterError>(writer@.skip(2) + rest),
                    Err(e) => report_entries(&self.parameters, all, (REPORT_CAPACITY - 2) as nat)
                        == Err::<Seq<u8>, ParameterError>(e),
                },
            decreases n - i,
        {
            let hash = hashes[i as usize];
            let ghost before = writer@;
            let ghost room = writer.room();
            let ghost tail = all.skip(i as int);
            proof {
                assert(tail[0] == hash);
                assert(tail.drop_first() =~= all.skip(i + 1));
            }
            match writer.write_bits(hash as u64, 32) {
                Ok(()) => {},
                Err(e) => {
                    return Err(ParameterError::WriteError(e));
                },
            }
            proof {
                lemma_be_bytes_len(hash as nat, 4);
            }
            match self.parameters.get_parameter_as_be_bytes(hash, &mut writer) {
                Ok(_) => {},
                Err(e) => {
                    return Err(e);
                },
            }
            proof {
                let v = self.parameters.report_outcome(hash, (room - 4) as nat).unwrap();
                lemma_be_bytes_len(v.raw(), v.width());
                assert(writer@ =~= before + be_bytes(hash as nat, 4) + v.be_repr());
                assert(writer@.take(2) =~= before.take(2));
                match report_entries(&self.parameters, all.skip(i + 1), writer.room()) {
                    Ok(rest) => {
                        assert(writer@.skip(2) + rest =~= before.skip(2) + (be_bytes(
                            hash as nat,
                            4,
                        ) + v.be_repr() + rest));
                    },
                    Err(_) => {},
                }
            }
            i = i + 1;
        }
        let data = writer.into_bytes();
        proof {
            assert(all.skip(n as int) =~= Seq::<u32>::empty());
            assert(data@.skip(2) + Seq::<u8>::empty() =~= data@.skip(2));
            assert(data@ =~= data@.take(2) + data@.skip(2));
        }
        Ok(SubserviceTmData { subservice: PARAMETER_VALUE_REPORT, data })
    }

    /// Stores `n` parameters from the data of a request and tells whether all of
    /// them were stored.
    pub fn set_parameter_values(&mut self, n: u16, parameter_set_data: &Vec<u8>) -> (ok: bool)
        ensures
            ok == stored(declared(&old(self).parameters), n as nat, parameter_set_data@).1,
            declared(&final(self).parameters) == stored(
                declared(&old(self).parameters),
                n as nat,
                parameter_set_data@,
            ).0,
    {
        let mut bb = BitBuffer::wrap(parameter_set_data.as_slice());
        let ghost goal = stored(declared(&self.parameters), n as nat, parameter_set_data@);
        let mut i: u16 = 0;
        while i < n
            invariant
                i <= n,
                goal == stored(declared(&old(self).parameters), n as nat, parameter_set_data@),
                stored(declared(&self.parameters), (n - i) as nat, bb@) == goal,
            decreases n - i,
        {
            let ghost m = declared(&self.parameters);
            let ghost data = bb@;
            let hash = match bb.get_bits(32) {
                Some(h) => {
                    proof {
                        lemma_be_value_bound(data.take(4));
                        lemma_pow256_values();
                    }
                    h as u32
                },
                None => {
                    return false;
                },
            };
            let ghost before = self.parameters;
            if !self.parameters.set_parameter_from_be_bytes(hash, &mut bb) {
                proof {
                    assert(declared(&self.parameters) =~= m);
                    assert(data.skip(4).len() == data.len() - 4);
                }
                return false;
            }
            proof {
                assert(data.skip(4).take(8) =~= data.subrange(4, 12));
                assert(data.skip(4).skip(8) =~= data.skip(12));
                lemma_be_value_bound(data.subrange(4, 12));
                lemma_pow256_values();
                let field = be_value(data.subrange(4, 12)) as u64;
                assert(declared(&self.parameters) =~= m.insert(hash, m[hash].narrowed(field)));
            }
            i = i + 1;
        }
        true
    }
}

impl<P: PusParameters> PusService for ParameterManagementService<P> {
    type CommandT = Command;

    /// A report request whose count differs from the number of its hashes fails to
    /// start, with code 0, and any other report request is run at once and answered
    /// by the report; either leaves the parameters as they are. A request to set
    /// values is run at once and stores what it can.
    open spec fn executed(
        before: Self,
        after: Self,
        cmd: Command,
        request_id: u32,
        service: u8,
        r: AcceptanceResult,
        trace: Seq<TmContent>,
    ) -> bool {
        match cmd {
            Command::ReportParameterValues(args) => {
                &&& after.parameters == before.parameters
                &&& if args.number_of_parameters as nat != args.parameter_hashes@.len() {
                    &&& r == Ok::<CommandExecutionStatus, AcceptanceError>(
                        CommandExecutionStatus::Failed,
                    )
                    &&& trace == seq![
                        verification_failure(4, request_id, COUNT_MISMATCH, Seq::empty()),
                    ]
                } else {
                    match report_of(
                        &before.parameters,
                        args.number_of_parameters,
                        args.parameter_hashes@,
                    ) {
                        Ok(data) => {
                            &&& r == Ok::<CommandExecutionStatus, AcceptanceError>(
                                CommandExecutionStatus::Completed,
                            )
                            &&& trace == completed_at_once(request_id, true).push(
                                TmContent {
                                    service,
                                    subservice: PARAMETER_VALUE_REPORT,
                                    source_data: data,
                                },
                            )
                        },
                        Err(_) => {
                            &&& r == Ok::<CommandExecutionStatus, AcceptanceError>(
                                CommandExecutionStatus::Failed,
                            )
                            &&& trace == completed_at_once(request_id, false)
                        },
                    }
                }
            },
            Command::SetParameterValues(args) => {
                let outcome = stored(
                    declared(&before.parameters),
                    args.number_of_parameters as nat,
                    args.parameter_set_data@,
                );
                &&& declared(&after.parameters) == outcome.0
                &&& r == Ok::<CommandExecutionStatus, AcceptanceError>(
                    if outcome.1 {
                        CommandExecutionStatus::Completed
                    } else {
                        CommandExecutionStatus::Failed
                    },
                )
                &&& trace == completed_at_once(request_id, outcome.1)
            },
        }
    }

    fn handle_tc(&mut self, base: &mut PusServiceBase, tc: AcceptedTc, cmd: Self::CommandT) -> (r:
        AcceptanceResult)
    {
        let ghost before = base.log();
        let ghost request_id = tc.token.id();
        match cmd {
            Command::ReportParameterValues(
                report_parameter_values::Args { number_of_parameters, parameter_hashes },
            ) => {
                if number_of_parameters as usize != parameter_hashes.len() {
                    let r = tc.fail_start(base, COUNT_MISMATCH);
                    proof {
                        let after = base.log();
                        assert(after.take(before.len() as int) =~= before);
                        assert(after.skip(before.len() as int) =~= seq![after.last()]);
                        assert(crate::packets::failure_report(
                            request_id,
                            COUNT_MISMATCH,
                            Seq::empty(),
                        ).take(4) =~= crate::packets::success_report(request_id)) by {
                            lemma_be_bytes_len(request_id as nat, 4);
                        }
                        lemma_be_bytes_len(request_id as nat, 4);
                    }
                    return r;
                }
                let started = tc.start(base);
                let ghost begun = base.log();
                let ghost middle = *base;
                let outcome = self.report_parameter_values(number_of_parameters, &parameter_hashes);
                let ghost answer = outcome.ok();
                let r = started.complete_with_tm(base, outcome);
                proof {
                    base.lemma_extends_trans(&middle, old(base));
                    let after = base.log();
                    let answered = answered_at_once(old(base).service, request_id, answer);
                    assert(answered[0] == crate::packets::verification_success(3, request_id));
                    lemma_log_joined(after, begun, answered.skip(1));
                    assert(after =~= before + answered);
                    assert(after.take(before.len() as int) =~= before);
                    assert(after.skip(before.len() as int) =~= answered);
                    lemma_be_bytes_len(request_id as nat, 4);
                    assert(crate::packets::failure_report(request_id, 1, Seq::empty()).take(4)
                        =~= crate::packets::success_report(request_id));
                    assert(answered.len() >= 2);
                    assert(answered[1] == completed_at_once(
                        request_id,
                        answered_status(answer) == CommandExecutionStatus::Completed,
                    )[1]);
                    if answered_status(answer) == CommandExecutionStatus::Completed {
                        assert(answered.len() == 3);
                        assert(answered[2].service == old(base).service);
                    }
                }
                r
            },
            Command::SetParameterValues(
                set_parameter_values::Args { number_of_parameters, parameter_set_data },
            ) => {
                let started = tc.start(base);
                let ghost begun = base.log();
                let ghost middle = *base;
                let success = self.set_parameter_values(number_of_parameters, &parameter_set_data);
                let r = started.complete(base, success);
                proof {
                    base.lemma_extends_trans(&middle, old(base));
                    let after = base.log();
                    lemma_log_pushed(after, begun);
                    assert(after =~= before + completed_at_once(request_id, success));
                    assert(after.take(before.len() as int) =~= before);
                    assert(after.skip(before.len() as int) =~= completed_at_once(
                        request_id,
                        success,
                    ));
                    lemma_be_bytes_len(request_id as nat, 4);
                    assert(crate::packets::failure_report(request_id, 1, Seq::empty()).take(4)
                        =~= crate::packets::success_report(request_id));
                }
                r
            },
        }
    }
}

} // verus!
