//! Where a stored file goes: a folder path built from the first characters
//! of its hash.

use crate::textparse::{chars_of, chars_to_string};
use vstd::prelude::*;

verus! {

/// The folder of a file with the hash `hash` under `location`: the location,
/// then three levels named by the hash's first six characters, two each.
pub open spec fn finpath_of(location: Seq<char>, hash: Seq<char>) -> Seq<char> {
    location + seq!['/'] + hash.subrange(0, 2) + seq!['/'] + hash.subrange(2, 4) + seq!['/']
        + hash.subrange(4, 6)
}

/// The folder path of a file with the hash `hash` under `location`, as
/// `location/h0h1/h2h3/h4h5`. The hash must have six characters at least.
pub fn getfinpath(location: &String, hash: &String) -> (res: String)
    requires
        hash@.len() >= 6,
    ensures
        res@ == finpath_of(location@, hash@),
{
    let mut out = chars_of(location.as_str());
    let h = chars_of(hash.as_str());
    out.push('/');
    out.push(h[0]);
    out.push(h[1]);
    out.push('/');
    out.push(h[2]);
    out.push(h[3]);
    out.push('/');
    out.push(h[4]);
    out.push(h[5]);
    assert(out@ =~= finpath_of(location@, hash@));
    chars_to_string(&out)
}

} // verus!
