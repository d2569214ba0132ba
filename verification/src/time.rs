//! The clock, and repeat intervals in seconds as `u128`.

use crate::textparse::chars_of;
use crate::timeconv::{conv_interval, conv_units, units};
use vstd::prelude::*;

verus! {

/// The seconds an interval stands for: 0 for exactly `now`, else the units
/// `y`, `mo` (month), `w`, `d`, `h`, `m` (minute), `s` read in that order.
pub open spec fn time_conv_spec(s: Seq<char>) -> Option<nat> {
    if s == seq!['n', 'o', 'w'] {
        Some(0)
    } else {
        conv_units(s, units(true), 0, 0)
    }
}

/// Returns the seconds since the Unix epoch, from `SystemTime::now` and
/// `SystemTime::duration_since`; a clock set before the epoch reads 0.
/// Nothing is claimed of the value: it is the time of the machine.
#[verifier::external_body]
pub fn time_secs() -> u128 {
    match std::time::SystemTime::now().duration_since(std::time::UNIX_EPOCH) {
        Ok(d) => d.as_secs().into(),
        Err(_) => 0,
    }
}

/// Converts a repeat interval of years, months, weeks, days, hours, minutes
/// and seconds, such as `1d12h30m`, to seconds.
pub fn time_conv(inp: String) -> (res: u128)
    requires
        time_conv_spec(inp@) matches Some(v) && v <= u128::MAX,
    ensures
        Some(res as nat) == time_conv_spec(inp@),
{
    let chars = chars_of(inp.as_str());
    if chars.len() == 3 && chars[0] == 'n' && chars[1] == 'o' && chars[2] == 'w' {
        assert(inp@ =~= seq!['n', 'o', 'w']);
        return 0;
    }
    match conv_interval(&chars, true) {
        Some(v) => v,
        None => {
            assert(false);
            0
        },
    }
}

} // verus!
