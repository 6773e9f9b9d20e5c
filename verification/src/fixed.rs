//! Unsigned fixed-point numbers with eighteen decimal places, and the
//! arithmetic on them that `solana_maths::Decimal` provides.

use solana_maths::{Decimal, TryAdd, TryDiv, TryMul, U192};
use solana_program::program_error::ProgramError;
use vstd::prelude::*;

verus! {

/// The error of `solana_program` that the arithmetic of `solana_maths`
/// fails with. Nothing is known of a value but that it is one.
#[verifier::external_type_specification]
#[verifier::external_body]
pub struct ExProgramError(ProgramError);

/// The scale of a fixed-point number: one whole unit.
pub const WAD: u64 = 1_000_000_000_000_000_000;

/// Two to the power 64.
pub open spec fn word() -> nat {
    0x1_0000_0000_0000_0000
}

/// Two to the power 192: the first scaled value that no `Fixed` can hold.
pub open spec fn fixed_limit() -> nat {
    word() * word() * word()
}

/// A number with eighteen decimal places held as a scaled 192-bit integer,
/// in three words with the least significant first.
///
/// The view is the scaled integer: the number times `WAD`.
#[derive(Clone, Copy, Debug, PartialEq, Eq, Structural)]
pub struct Fixed {
    pub lo: u64,
    pub mid: u64,
    pub hi: u64,
}

impl View for Fixed {
    type V = nat;

    open spec fn view(&self) -> nat {
        (self.lo + self.mid * word() + self.hi * word() * word()) as nat
    }
}

/// The least whole number that is not below the scaled value `x`.
pub open spec fn ceil_units(x: nat) -> nat {
    (x + (WAD - 1) as nat) / (WAD as nat)
}

/// Whether the scaled value `x` can be rounded up to a whole number that
/// fits in a `u64`, without the intermediate sum leaving 192 bits.
pub open spec fn ceil_in_range(x: nat) -> bool {
    (x + (WAD - 1) as nat) < fixed_limit() && ceil_units(x) <= u64::MAX
}

/// Calls `Decimal::from(u64)`: the whole number `val` as a fixed-point
/// number, that is `val` times `WAD` as a scaled value.
#[verifier::external_body]
pub(crate) fn decimal_from_u64(val: u64) -> (r: Fixed)
    ensures
        r@ == (val as nat) * (WAD as nat),
{
    let d = Decimal::from(val);
    Fixed { lo: d.0.0[0], mid: d.0.0[1], hi: d.0.0[2] }
}

/// Calls `TryMul<u64>::try_mul` of `Decimal`: the scaled value times `rhs`,
/// an error exactly when the product does not fit in 192 bits.
#[verifier::external_body]
pub(crate) fn decimal_try_mul_u64(a: Fixed, rhs: u64) -> (r: Result<Fixed, ProgramError>)
    ensures
        r is Ok <==> a@ * (rhs as nat) < fixed_limit(),
        r matches Ok(p) ==> p@ == a@ * (rhs as nat),
{
    match Decimal(U192([a.lo, a.mid, a.hi])).try_mul(rhs) {
        Ok(d) => Ok(Fixed { lo: d.0.0[0], mid: d.0.0[1], hi: d.0.0[2] }),
        Err(e) => Err(e),
    }
}

/// Calls `TryMul<Decimal>::try_mul` of `Decimal`: the product of the two
/// scaled values divided by `WAD`, rounded down, an error exactly when the
/// product before the division does not fit in 192 bits.
#[verifier::external_body]
pub(crate) fn decimal_try_mul(a: Fixed, b: Fixed) -> (r: Result<Fixed, ProgramError>)
    ensures
        r is Ok <==> a@ * b@ < fixed_limit(),
        r matches Ok(p) ==> p@ == (a@ * b@) / (WAD as nat),
{
    match Decimal(U192([a.lo, a.mid, a.hi])).try_mul(Decimal(U192([b.lo, b.mid, b.hi]))) {
        Ok(d) => Ok(Fixed { lo: d.0.0[0], mid: d.0.0[1], hi: d.0.0[2] }),
        Err(e) => Err(e),
    }
}

/// Calls `TryDiv<u64>::try_div` of `Decimal`: the scaled value divided by
/// `rhs`, rounded down, an error exactly when `rhs` is zero.
#[verifier::external_body]
pub(crate) fn decimal_try_div_u64(a: Fixed, rhs: u64) -> (r: Result<Fixed, ProgramError>)
    ensures
        r is Ok <==> rhs != 0,
        r matches Ok(p) ==> p@ == a@ / (rhs as nat),
{
    match Decimal(U192([a.lo, a.mid, a.hi])).try_div(rhs) {
        Ok(d) => Ok(Fixed { lo: d.0.0[0], mid: d.0.0[1], hi: d.0.0[2] }),
        Err(e) => Err(e),
    }
}

/// Calls `TryAdd::try_add` of `Decimal`: the sum of the two scaled values,
/// an error exactly when it does not fit in 192 bits.
#[verifier::external_body]
pub(crate) fn decimal_try_add(a: Fixed, b: Fixed) -> (r: Result<Fixed, ProgramError>)
    ensures
        r is Ok <==> a@ + b@ < fixed_limit(),
        r matches Ok(p) ==> p@ == a@ + b@,
{
    match Decimal(U192([a.lo, a.mid, a.hi])).try_add(Decimal(U192([b.lo, b.mid, b.hi]))) {
        Ok(d) => Ok(Fixed { lo: d.0.0[0], mid: d.0.0[1], hi: d.0.0[2] }),
        Err(e) => Err(e),
    }
}

/// Calls `Decimal::try_ceil_u64`: the scaled value rounded up to a whole
/// number, an error exactly when adding `WAD - 1` leaves 192 bits or the
/// whole number does not fit in a `u64`.
#[verifier::external_body]
pub(crate) fn decimal_try_ceil_u64(a: Fixed) -> (r: Result<u64, ProgramError>)
    ensures
        r is Ok <==> ceil_in_range(a@),
        r matches Ok(v) ==> v as nat == ceil_units(a@),
{
    Decimal(U192([a.lo, a.mid, a.hi])).try_ceil_u64()
}

impl Fixed {
    /// The number zero.
    pub fn zero() -> (r: Fixed)
        ensures
            r == (Fixed { lo: 0, mid: 0, hi: 0 }),
            r@ == 0,
    {
        Fixed { lo: 0, mid: 0, hi: 0 }
    }

    /// The number whose scaled value is `scaled_val`.
    pub fn from_scaled_val(scaled_val: u128) -> (r: Fixed)
        ensures
            r@ == scaled_val,
            r.hi == 0,
    {
        let mid: u64 = (scaled_val / 0x1_0000_0000_0000_0000u128) as u64;
        let lo: u64 = (scaled_val % 0x1_0000_0000_0000_0000u128) as u64;
        assert(0 * word() * word() == 0) by (nonlinear_arith);
        Fixed { lo, mid, hi: 0 }
    }

    /// The scaled value, where it fits in 128 bits.
    pub fn to_scaled_val(&self) -> (r: Option<u128>)
        ensures
            r is Some <==> self@ < word() * word(),
            r matches Some(v) ==> v as nat == self@,
    {
        if self.hi != 0 {
            assert(self.hi * word() * word() >= word() * word()) by (nonlinear_arith)
                requires
                    self.hi >= 1,
            ;
            None
        } else {
            assert(self.mid * word() <= (word() - 1) * word()) by (nonlinear_arith)
                requires
                    self.mid <= word() - 1,
            ;
            assert(self.hi * word() * word() == 0) by (nonlinear_arith)
                requires
                    self.hi == 0,
            ;
            let mid: u128 = self.mid as u128;
            let lo: u128 = self.lo as u128;
            Some(mid * 0x1_0000_0000_0000_0000u128 + lo)
        }
    }
}

} // verus!
