//! PUS service 20: reporting and setting parameters that are addressed by a 32-bit
//! hash.

pub mod command;
pub mod parameters;
pub mod service;

use crate::bitbuffer::{BitBuffer, BitWriter, WriteError};
use crate::endian::{be_value, lemma_be_value_bound, lemma_pow256_values, read_be};
use crate::parameter_management_service::parameters::ParameterValue;
use vstd::arithmetic::power2::{lemma2_to64, lemma2_to64_rest, pow2};
use vstd::prelude::*;

verus! {

/// Why a parameter could not be reported.
#[derive(Debug, PartialEq)]
pub enum ParameterError {
    /// No parameter is declared under this hash.
    UnknownParameter(u32),
    /// The value did not fit into what was left of the report.
    WriteError(WriteError),
}

/// A set of parameters, each addressed by a hash.
pub trait PusParameters {
    /// The parameter that a hash stands for: the first one declared under it.
    spec fn lookup(&self, hash: u32) -> Option<ParameterValue>;

    /// What a report of `hash` yields when `room` bytes are left to write into.
    spec fn report_outcome(&self, hash: u32, room: nat) -> Result<ParameterValue, ParameterError>;

    /// A parameter that is declared and fits is the one reported.
    proof fn lemma_declared_is_reported(&self, hash: u32, room: nat)
        requires
            self.lookup(hash).is_some(),
            self.lookup(hash).unwrap().width() <= room,
        ensures
            self.report_outcome(hash, room) == Ok::<ParameterValue, ParameterError>(
                self.lookup(hash).unwrap(),
            ),
    ;

    /// Nothing is reported under a hash that is not declared.
    proof fn lemma_undeclared_is_unknown(&self, hash: u32, room: nat)
        requires
            self.lookup(hash).is_none(),
        ensures
            self.report_outcome(hash, room) == Err::<ParameterValue, ParameterError>(
                ParameterError::UnknownParameter(hash),
            ),
    ;

    /// Writes the big-endian bytes of the parameter under `hash` and returns the
    /// number of bits written.
    fn get_parameter_as_be_bytes(&self, hash: u32, writer: &mut BitWriter) -> (r: Result<
        usize,
        ParameterError,
    >)
        ensures
            final(writer).room() == old(writer).room() - (final(writer)@.len() - old(writer)@.len()),
            match self.report_outcome(hash, old(writer).room()) {
                Ok(v) => r == Ok::<usize, ParameterError>((8 * v.width()) as usize)
                    && final(writer)@ == old(writer)@ + v.be_repr(),
                Err(e) => r == Err::<usize, ParameterError>(e) && final(writer)@ == old(writer)@,
            },
    ;

    /// Reads a 64-bit big-endian field and stores it, narrowed to the parameter's
    /// kind, in the parameter under `hash`.
    ///
    /// Nothing is read or stored where the hash is not declared or fewer than eight
    /// bytes are left.
    fn set_parameter_from_be_bytes(&mut self, hash: u32, buffer: &mut BitBuffer) -> (ok: bool)
        ensures
            ok <==> old(self).lookup(hash).is_some() && old(buffer)@.len() >= 8,
            ok ==> final(buffer)@ == old(buffer)@.skip(8),
            !ok ==> final(buffer)@ == old(buffer)@,
            forall|h: u32|
                #![trigger final(self).lookup(h)]
                final(self).lookup(h) == if ok && h == hash {
                    Some(
                        old(self).lookup(hash).unwrap().narrowed(
                            be_value(old(buffer)@.take(8)) as u64,
                        ),
                    )
                } else {
                    old(self).lookup(h)
                },
            forall|h: u32, room: nat|
                #![trigger final(self).report_outcome(h, room)]
                h != hash || !ok ==> final(self).report_outcome(h, room)
                    == old(self).report_outcome(h, room),
    ;

    /// The size of a parameter is not tracked apart from its value.
    fn get_parameter_size(&self, hash: u32) -> (r: Option<usize>)
        ensures
            r.is_none(),
    ;
}

/// The number that `src` denotes in big-endian order, reduced to its `bits` low bits.
pub fn src_buffer_to_u64(src: &[u8], bits: usize) -> (val: u64)
    requires
        bits <= 64,
        src.len() <= 8,
    ensures
        val as nat == be_value(src@) % pow2(bits as nat),
{
    let all = read_be(src, 0, src.len());
    proof {
        assert(src@.subrange(0, src@.len() as int) =~= src@);
        lemma_be_value_bound(src@);
        lemma_pow256_values();
        lemma2_to64();
        lemma2_to64_rest();
    }
    if bits == 64 {
        proof {
            vstd::arithmetic::div_mod::lemma_small_mod(all as nat, pow2(64));
        }
        all
    } else {
        let modulus = pow2_below_64(bits);
        all % modulus
    }
}

fn pow2_below_64(n: usize) -> (r: u64)
    requires
        n < 64,
    ensures
        r == pow2(n as nat),
        r > 0,
{
    let mut r: u64 = 1;
    let mut i: usize = 0;
    proof {
        lemma2_to64();
        lemma2_to64_rest();
    }
    while i < n
        invariant
            i <= n < 64,
            r == pow2(i as nat),
            r > 0,
            pow2(63) == 0x8000_0000_0000_0000,
        decreases n - i,
    {
        proof {
            vstd::arithmetic::power2::lemma_pow2_unfold((i + 1) as nat);
            if i + 1 < 63 {
                vstd::arithmetic::power2::lemma_pow2_strictly_increases((i + 1) as nat, 63);
            }
        }
        r = r * 2;
        i = i + 1;
    }
    r
}

} // verus!
