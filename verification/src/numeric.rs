//! Defensive checks on 64-bit float values, decided over their IEEE-754 bit
//! patterns so that the decisions are verified. The embedding program obtains
//! the bit pattern of each intermediate result (`f64::to_bits`) and consults
//! these checks before letting the value propagate.

use vstd::prelude::*;
use crate::error::EvalError;

verus! {

/// In the 64-bit binary interchange format, a value equals zero exactly when
/// every bit below the sign bit is clear (this covers both signed zeros; NaN
/// and the infinities have a nonzero exponent field and so are not zero).
pub open spec fn bits_are_zero(bits: u64) -> bool {
    bits & 0x7fff_ffff_ffff_ffff == 0
}

/// A 64-bit float is finite (neither NaN nor an infinity) exactly when its
/// exponent field, bits 52 through 62, is not all ones.
pub open spec fn bits_are_finite(bits: u64) -> bool {
    bits & 0x7ff0_0000_0000_0000 != 0x7ff0_0000_0000_0000
}

/// Decides whether a division may proceed: the right operand, given by its
/// bit pattern, must not equal zero.
pub fn check_divisor(bits: u64) -> (r: Result<(), EvalError>)
    ensures
        r is Ok <==> !bits_are_zero(bits),
        r matches Err(e) ==> e == EvalError::DivisionByZero,
{
    if bits & 0x7fff_ffff_ffff_ffff == 0 {
        Err(EvalError::DivisionByZero)
    } else {
        Ok(())
    }
}

/// Decides whether the result of a power, given by its bit pattern, may
/// propagate: it must be finite.
pub fn check_power_result(bits: u64) -> (r: Result<(), EvalError>)
    ensures
        r is Ok <==> bits_are_finite(bits),
        r matches Err(e) ==> e == EvalError::InvalidPowerResult,
{
    if bits & 0x7ff0_0000_0000_0000 == 0x7ff0_0000_0000_0000 {
        Err(EvalError::InvalidPowerResult)
    } else {
        Ok(())
    }
}

/// Decides whether the result of a whitelisted function application, given by
/// its bit pattern, may propagate: it must be finite. A NaN from a domain
/// violation (such as the square root of a negative number) is rejected here.
pub fn check_function_result(bits: u64) -> (r: Result<(), EvalError>)
    ensures
        r is Ok <==> bits_are_finite(bits),
        r matches Err(e) ==> e == EvalError::InvalidFunctionResult,
{
    if bits & 0x7ff0_0000_0000_0000 == 0x7ff0_0000_0000_0000 {
        Err(EvalError::InvalidFunctionResult)
    } else {
        Ok(())
    }
}

} // verus!
