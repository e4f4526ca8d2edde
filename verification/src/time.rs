//! The time stamp that outgoing telemetry carries.

use satrs::spacepackets::time::cuc::{CucTime, FractionalResolution};
use satrs::spacepackets::time::TimeWriter;
use vstd::prelude::*;

verus! {

/// Holds the CUC time stamp of the last update.
#[derive(Debug, Clone, Copy)]
pub struct TimestampHelper {
    timestamp: [u8; 8],
}

/// The width of the fraction of a stamp in bytes: three bytes resolve about 60 ns.
pub const FRACTION_WIDTH: u8 = 3;

/// The leap seconds that are added to the clock. No source of leap seconds is at
/// hand.
pub const LEAP_SECONDS: u32 = 0;

/// The preamble of a CUC stamp that counts from the CCSDS epoch with four bytes of
/// seconds and three bytes of fraction.
pub const CUC_PREAMBLE: u8 = 0x1F;

/// The preamble of a CUC stamp that counts from the CCSDS epoch with four bytes of
/// seconds and a fraction of the given width: the time code, the width of the
/// seconds less one, and the width of the fraction.
pub open spec fn cuc_preamble(fraction_width: u8) -> u8 {
    (0x1C + fraction_width) as u8
}

/// Calls `CucTime::now` with the resolution that `FractionalResolution::try_from`
/// makes of the width and with the leap seconds, and `write_to_bytes` on what it
/// returns. The time bytes depend on the clock, so nothing is claimed of them;
/// the first byte is the preamble, which the widths fix. `None` stands for an
/// error of any of the calls.
#[verifier::external_body]
fn cuc_now(fraction_width: u8, leap_seconds: u32) -> (r: Option<[u8; 8]>)
    requires
        fraction_width <= 3,
    ensures
        r matches Some(stamp) ==> stamp@[0] == cuc_preamble(fraction_width),
{
    let resolution = FractionalResolution::try_from(fraction_width).ok()?;
    let cuc = CucTime::now(resolution, leap_seconds).ok()?;
    let mut stamp = [0u8; 8];
    cuc.write_to_bytes(&mut stamp).ok()?;
    Some(stamp)
}

impl TimestampHelper {
    /// The stamp's bytes.
    pub closed spec fn bytes(&self) -> Seq<u8> {
        self.timestamp@
    }

    /// A helper whose stamp is all zero.
    pub fn new() -> (helper: Self)
        ensures
            helper.bytes() == Seq::new(8, |i: int| 0u8),
    {
        let helper = TimestampHelper { timestamp: [0u8; 8] };
        assert(helper.timestamp@ =~= Seq::new(8, |i: int| 0u8));
        helper
    }

    /// The stamp of the last update.
    pub fn stamp(&self) -> (s: &[u8])
        ensures
            s@ == self.bytes(),
            s@.len() == 8,
    {
        self.timestamp.as_slice()
    }

    /// Takes the stamp from the clock: a preamble and the time. The stamp stays as
    /// it is where the clock cannot be read.
    pub fn update_from_now(&mut self)
        ensures
            final(self).bytes() == old(self).bytes() || final(self).bytes()[0] == CUC_PREAMBLE,
    {
        self.update_from(cuc_now(FRACTION_WIDTH, LEAP_SECONDS));
    }

    /// Takes the stamp from a reading of the clock: the stamp is the reading where
    /// there is one, and stays as it is where there is none.
    pub fn update_from(&mut self, reading: Option<[u8; 8]>)
        ensures
            final(self).bytes() == match reading {
                Some(stamp) => stamp@,
                None => old(self).bytes(),
            },
    {
        match reading {
            Some(stamp) => {
                self.timestamp = stamp;
            },
            None => {},
        }
    }
}

} // verus!
