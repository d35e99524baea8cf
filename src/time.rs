use vstd::prelude::*;

verus! {

/// Nanoseconds in one second.
pub const NANOS_PER_SECOND: u32 = 1_000_000_000;

/// A UTC instant: whole seconds since the Unix epoch and the nanoseconds
/// within that second.
#[derive(Clone, Copy, Debug, PartialEq, Eq, Structural)]
pub struct Timestamp {
    pub seconds: i64,
    pub nanos: u32,
}

impl Timestamp {
    /// The sub-second part is below one second.
    pub open spec fn wf(self) -> bool {
        self.nanos < NANOS_PER_SECOND
    }

    /// The instant as nanoseconds since the Unix epoch.
    pub open spec fn spec_unix_nanos(self) -> int {
        self.seconds as int * NANOS_PER_SECOND as int + self.nanos as int
    }

    /// Builds an instant from seconds and nanoseconds; `None` when the
    /// nanoseconds do not lie within one second.
    pub fn from_parts(seconds: i64, nanos: u32) -> (r: Option<Timestamp>)
        ensures
            nanos < NANOS_PER_SECOND ==> r == Some(Timestamp { seconds, nanos }),
            nanos >= NANOS_PER_SECOND ==> r is None,
    {
        if nanos < NANOS_PER_SECOND {
            Some(Timestamp { seconds, nanos })
        } else {
            None
        }
    }

    /// Builds an instant from seconds and a nanosecond count that may exceed
    /// one second (a leap second is written as nanoseconds past 999_999_999):
    /// whole seconds in the count are carried over. `None` when the carried
    /// seconds no longer fit.
    pub fn from_parts_carrying(seconds: i64, nanos: u32) -> (r: Option<Timestamp>)
        ensures
            r matches Some(t) ==> t.wf() && t.spec_unix_nanos() == seconds as int
                * NANOS_PER_SECOND as int + nanos as int,
            r is None <==> seconds as int + nanos as int / NANOS_PER_SECOND as int > i64::MAX,
    {
        let carry: u32 = nanos / NANOS_PER_SECOND;
        let rest: u32 = nanos % NANOS_PER_SECOND;
        assert(nanos as int == carry as int * 1_000_000_000 + rest as int) by (nonlinear_arith)
            requires
                carry == nanos / 1_000_000_000,
                rest == nanos % 1_000_000_000,
        ;
        if seconds > i64::MAX - carry as i64 {
            None
        } else {
            Some(Timestamp { seconds: seconds + carry as i64, nanos: rest })
        }
    }

    /// The instant as nanoseconds since the Unix epoch.
    pub fn unix_nanos(&self) -> (r: i128)
        ensures
            r == self.spec_unix_nanos(),
    {
        let s: i128 = self.seconds as i128;
        assert(-0x8000_0000_0000_0000 <= s <= 0x7fff_ffff_ffff_ffff);
        assert(-0x8000_0000_0000_0000 * 1_000_000_000 <= s * 1_000_000_000 <= 0x7fff_ffff_ffff_ffff * 1_000_000_000) by (nonlinear_arith)
            requires -0x8000_0000_0000_0000 <= s <= 0x7fff_ffff_ffff_ffff;
        s * 1_000_000_000 + self.nanos as i128
    }
}

/// Two well-formed instants with the same nanosecond count are the same instant.
pub proof fn lemma_unix_nanos_injective(a: Timestamp, b: Timestamp)
    requires
        a.wf(),
        b.wf(),
        a.spec_unix_nanos() == b.spec_unix_nanos(),
    ensures
        a == b,
{
    let d = a.seconds as int - b.seconds as int;
    assert(d * 1_000_000_000 == b.nanos as int - a.nanos as int) by (nonlinear_arith)
        requires
            a.seconds as int * 1_000_000_000 + a.nanos as int == b.seconds as int * 1_000_000_000 + b.nanos as int,
            d == a.seconds as int - b.seconds as int;
    assert(d == 0) by (nonlinear_arith)
        requires
            d * 1_000_000_000 == b.nanos as int - a.nanos as int,
            a.nanos < 1_000_000_000,
            b.nanos < 1_000_000_000;
}

} // verus!
