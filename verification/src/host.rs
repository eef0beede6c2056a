//! What the node takes from the machine it runs on: fresh identifiers and
//! the time of day. Nothing here is proved; each contract is a claim about
//! code outside this library.

use std::time::{SystemTime, UNIX_EPOCH};
use uuid::Uuid;
use vstd::prelude::*;

verus! {

/// Whether `c` is a decimal digit or one of the letters `a` to `f`.
pub open spec fn is_lower_hex(c: char) -> bool {
    ('0' <= c <= '9') || ('a' <= c <= 'f')
}

/// The hyphenated form of a 128-bit identifier: 32 lower-case hexadecimal
/// digits in groups of 8, 4, 4, 4 and 12, with a hyphen between groups.
pub open spec fn is_hyphenated_id(text: Seq<char>) -> bool {
    &&& text.len() == 36
    &&& forall|i: int|
        0 <= i < 36 ==> if i == 8 || i == 13 || i == 18 || i == 23 {
            #[trigger] text[i] == '-'
        } else {
            is_lower_hex(text[i])
        }
}

/// Draws a random identifier with `uuid::Uuid::new_v4` and writes it with
/// the crate's `Display` impl. The contract claims only the shape of the
/// text, which that impl gives to every identifier; which identifier comes
/// is left open. `new_v4` panics when the operating system hands out no
/// random bytes.
#[verifier::external_body]
pub(crate) fn fresh_id() -> (id: String)
    ensures
        is_hyphenated_id(id@),
{
    Uuid::new_v4().to_string()
}

/// Reads the system clock with `std::time::SystemTime::now` and gives the
/// reading in milliseconds since the Unix epoch, or `None` for a clock that
/// stands before the epoch. Nothing is claimed of the reading.
#[verifier::external_body]
pub(crate) fn unix_millis() -> (now: Option<u128>) {
    match SystemTime::now().duration_since(UNIX_EPOCH) {
        Ok(elapsed) => Some(elapsed.as_millis()),
        Err(_) => None,
    }
}

} // verus!
