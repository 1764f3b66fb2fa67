//! Conversions between the sizes of the runtime and the integers of the
//! boundary. They keep the value or fail; none wraps round.

use conv::ConvUtil;
use vstd::prelude::*;

verus! {

/// `conv::ConvUtil::value_as`, from `usize` to `i32`: the same number when it
/// is at most `i32::MAX`, and a failure, given here as nothing, when it is
/// larger. Trusted.
#[verifier::external_body]
fn usize_value_as_i32(value: usize) -> (converted: Option<i32>)
    ensures
        converted == (if value <= i32::MAX {
            Some(value as i32)
        } else {
            None
        }),
{
    value.value_as::<i32>().ok()
}

/// `conv::ConvUtil::value_as`, from `i32` to `usize`: the same number when it
/// is not negative, and a failure, given here as nothing, when it is.
/// Trusted.
#[verifier::external_body]
fn i32_value_as_usize(value: i32) -> (converted: Option<usize>)
    ensures
        converted == (if value >= 0 {
            Some(value as usize)
        } else {
            None
        }),
{
    value.value_as::<usize>().ok()
}

/// A size as an integer of the boundary, or nothing when it does not fit.
pub fn c_int_of(value: usize) -> (converted: Option<i32>)
    ensures
        converted is Some <==> value <= i32::MAX,
        converted matches Some(number) ==> number == value,
{
    usize_value_as_i32(value)
}

/// An integer of the boundary as a size, or nothing when it is negative.
pub fn size_of_c_int(value: i32) -> (converted: Option<usize>)
    ensures
        converted is Some <==> value >= 0,
        converted matches Some(number) ==> number == value,
{
    i32_value_as_usize(value)
}

} // verus!
