//! The clock, and repeat intervals in seconds as `usize`.

use crate::textparse::chars_of;
use crate::timeconv::{conv_interval, conv_units, units};
use vstd::prelude::*;

verus! {

/// Whether `s` reads `now` in any case.
pub open spec fn is_now_any_case(s: Seq<char>) -> bool {
    &&& s.len() == 3
    &&& (s[0] == 'n' || s[0] == 'N')
    &&& (s[1] == 'o' || s[1] == 'O')
    &&& (s[2] == 'w' || s[2] == 'W')
}

/// The seconds an interval stands for: 0 for `now` in any case, else the
/// units `y`, `mo`, `w`, `d`, `h`, `m`, `s` read in that order.
pub open spec fn time_conv_spec(s: Seq<char>) -> Option<nat> {
    if is_now_any_case(s) {
        Some(0)
    } else {
        conv_units(s, units(true), 0, 0)
    }
}

/// Returns the seconds since the Unix epoch, from `SystemTime::now`,
/// `SystemTime::duration_since` and `usize::try_from`; a clock set before
/// the epoch reads 0, and a count too large for a `usize` reads
/// `usize::MAX`. Nothing is claimed of the value: it is the time of the
/// machine.
#[verifier::external_body]
pub fn time_secs() -> usize {
    match std::time::SystemTime::now().duration_since(std::time::UNIX_EPOCH) {
        Ok(d) => usize::try_from(d.as_secs()).unwrap_or(usize::MAX),
        Err(_) => 0,
    }
}

/// Converts a repeat interval such as `1d12h` to seconds.
pub fn time_conv(inp: &str) -> (res: usize)
    requires
        time_conv_spec(inp@) matches Some(v) && v <= usize::MAX,
    ensures
        Some(res as nat) == time_conv_spec(inp@),
{
    let chars = chars_of(inp);
    if chars.len() == 3 && (chars[0] == 'n' || chars[0] == 'N') && (chars[1] == 'o' || chars[1]
        == 'O') && (chars[2] == 'w' || chars[2] == 'W') {
        return 0;
    }
    match conv_interval(&chars, true) {
        Some(v) => v as usize,
        None => {
            assert(false);
            0
        },
    }
}

} // verus!
