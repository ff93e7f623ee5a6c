//! What the surroundings supply: the time of day and chance.
//!
//! Neither is a function of anything the library holds, so these calls
//! promise only what holds of every outcome. The functions that use a draw or
//! a timestamp take it as an argument and are verified for every value of it.

use rand::Rng;
use vstd::prelude::*;

verus! {

/// Formats `chrono::Local::now()` as year, month, day, hour, minute and
/// second. Nothing is claimed of the text: it depends on the clock and on the
/// machine's time zone.
#[verifier::external_body]
pub(crate) fn local_timestamp() -> (r: String) {
    chrono::Local::now().format("%Y-%m-%d %H:%M:%S").to_string()
}

/// Draws a number from `0..bound` with `rand::thread_rng().gen_range`, which
/// returns a value of the range it is given.
#[verifier::external_body]
pub(crate) fn random_below(bound: u32) -> (r: u32)
    requires
        bound > 0,
    ensures
        r < bound,
{
    rand::thread_rng().gen_range(0..bound)
}

} // verus!
