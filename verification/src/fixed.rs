//! Fixed-point readings: gauge and metric values held in thousandths, so
//! that threshold comparisons and snapshots need no floating point.

use crate::text::{spec_dec, spec_dec_fixed, u64_dec_fixed, u64_string};
use vstd::prelude::*;
use vstd::string::*;

verus! {

/// A real-valued reading in thousandths of a unit.
#[derive(Clone, Copy, Debug, PartialEq, Eq, Structural)]
pub struct MilliValue {
    /// The reading times one thousand.
    pub thousandths: i64,
}

impl MilliValue {
    /// The reading holding `thousandths / 1000` units.
    pub fn from_thousandths(thousandths: i64) -> (r: Self)
        ensures
            r.thousandths == thousandths,
    {
        MilliValue { thousandths }
    }

    /// The reading holding exactly `units`.
    pub fn from_int(units: i64) -> (r: Self)
        requires
            -9223372036854775 <= units <= 9223372036854775,
        ensures
            r.thousandths == units * 1000,
    {
        MilliValue { thousandths: units * 1000 }
    }

    /// Strictly below another reading.
    pub fn lt(&self, other: &MilliValue) -> (b: bool)
        ensures
            b == (self.thousandths < other.thousandths),
    {
        self.thousandths < other.thousandths
    }

    /// Strictly above another reading.
    pub fn gt(&self, other: &MilliValue) -> (b: bool)
        ensures
            b == (self.thousandths > other.thousandths),
    {
        self.thousandths > other.thousandths
    }
}

/// Decimal rendering of a reading with four decimals: sign, integer part,
/// and the thousandths scaled to four digits.
pub open spec fn spec_milli_4(t: int) -> Seq<char> {
    let a = if t < 0 {
        -t
    } else {
        t
    };
    let sign = if t < 0 {
        "-"@
    } else {
        Seq::<char>::empty()
    };
    sign + spec_dec((a / 1000) as nat) + "."@ + spec_dec_fixed(((a % 1000) * 10) as nat, 4)
}

/// Render a reading with four decimals.
pub fn milli_to_string_4(v: MilliValue) -> (s: String)
    ensures
        s@ == spec_milli_4(v.thousandths as int),
{
    let t = v.thousandths;
    let abs: u64 = if t < 0 {
        if t == i64::MIN {
            9223372036854775808u64
        } else {
            (-t) as u64
        }
    } else {
        t as u64
    };
    let mut s = if t < 0 {
        String::from_str("-")
    } else {
        String::new()
    };
    let ip = u64_string(abs / 1000);
    s.append(ip.as_str());
    s.append(".");
    let fp = u64_dec_fixed((abs % 1000) * 10, 4);
    s.append(fp.as_str());
    s
}

} // verus!
