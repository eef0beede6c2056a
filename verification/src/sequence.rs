//! Sequence numbers for forwarded values, derived from the destination's
//! identifier and the value.

use vstd::prelude::*;

verus! {

/// The factor that separates the destination's number from the value.
pub const VALUE_SPAN: usize = 10_000;

/// Whether `c` is one of the ten decimal digits.
pub open spec fn is_digit(c: char) -> bool {
    '0' <= c <= '9'
}

/// The number that a string of decimal digits denotes.
pub open spec fn decimal_value(digits: Seq<char>) -> nat
    decreases digits.len(),
{
    if digits.len() == 0 {
        0
    } else {
        (decimal_value(digits.drop_last()) * 10 + (digits.last() as int - '0' as int)) as nat
    }
}

/// The number that follows the first character of a node identifier:
/// `n12` carries 12. An identifier carries a number when at least one
/// character follows the first and all that follow are decimal digits.
pub open spec fn node_number(id: Seq<char>) -> Option<nat> {
    if id.len() >= 2 && forall|i: int| 1 <= i < id.len() ==> is_digit(#[trigger] id[i]) {
        Some(decimal_value(id.skip(1)))
    } else {
        None
    }
}

/// The sequence number of the message that carries `value` to `dest`: the
/// destination's number, shifted by [`VALUE_SPAN`], plus the value. `None`
/// where the destination carries no number or the sum does not fit.
pub open spec fn sequence_number(dest: Seq<char>, value: usize) -> Option<usize> {
    match node_number(dest) {
        Some(n) => if n * VALUE_SPAN + value <= usize::MAX {
            Some((n * VALUE_SPAN + value) as usize)
        } else {
            None
        },
        None => None,
    }
}

/// The digits read so far: what follows the first character among the
/// first `k` characters of `id`.
spec fn digits_read(id: Seq<char>, k: int) -> Seq<char> {
    if k >= 1 {
        id.subrange(1, k)
    } else {
        Seq::empty()
    }
}

/// Reads the number that `id` carries. `None` where it carries none, or
/// one that `usize` cannot hold.
pub fn parse_node_number(id: &String) -> (number: Option<usize>)
    ensures
        number == match node_number(id@) {
            Some(n) => if n <= usize::MAX {
                Some(n as usize)
            } else {
                None
            },
            None => None,
        },
{
    let mut value: usize = 0;
    let mut fits = true;
    let mut digits = true;
    let mut first = true;
    let mut any = false;
    for c in it: id.as_str().chars()
        invariant
            it.seq() == id@,
            first <==> it.index() == 0,
            any <==> it.index() >= 2,
            digits <==> forall|i: int| 1 <= i < it.index() ==> is_digit(#[trigger] id@[i]),
            digits && fits ==> value == decimal_value(digits_read(id@, it.index() as int)),
            digits && !fits ==> decimal_value(digits_read(id@, it.index() as int)) > usize::MAX,
    {
        let ghost k = it.index() as int;
        if first {
            first = false;
        } else {
            any = true;
            proof {
                assert(digits_read(id@, k + 1).drop_last() =~= digits_read(id@, k));
                assert(digits_read(id@, k + 1).last() == c);
            }
            if c < '0' || c > '9' {
                digits = false;
            } else if digits && fits {
                let digit = (c as u32 - '0' as u32) as usize;
                match value.checked_mul(10) {
                    Some(scaled) => match scaled.checked_add(digit) {
                        Some(next) => {
                            value = next;
                        },
                        None => {
                            fits = false;
                        },
                    },
                    None => {
                        fits = false;
                    },
                }
            }
        }
    }
    proof {
        assert(id@.skip(1) =~= digits_read(id@, id@.len() as int) || id@.len() == 0);
    }
    if digits && any && fits {
        Some(value)
    } else {
        None
    }
}

/// Derives the sequence number of the message that carries `value` to
/// `dest`.
pub fn derive_sequence_number(dest: &String, value: usize) -> (seq: Option<usize>)
    ensures
        seq == sequence_number(dest@, value),
{
    match parse_node_number(dest) {
        Some(n) => match n.checked_mul(VALUE_SPAN) {
            Some(shifted) => shifted.checked_add(value),
            None => None,
        },
        None => None,
    }
}

/// Below [`VALUE_SPAN`], two values that travel to destinations with
/// different numbers, or two different values that travel to one
/// destination, never share a sequence number.
pub proof fn law_sequence_numbers_differ(
    dest_a: Seq<char>,
    value_a: usize,
    dest_b: Seq<char>,
    value_b: usize,
)
    requires
        value_a < VALUE_SPAN,
        value_b < VALUE_SPAN,
        sequence_number(dest_a, value_a) is Some,
        sequence_number(dest_a, value_a) == sequence_number(dest_b, value_b),
    ensures
        node_number(dest_a) == node_number(dest_b),
        value_a == value_b,
{
}

} // verus!
