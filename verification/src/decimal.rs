use vstd::prelude::*;

verus! {

/// Atomic units per whole: a rate is `atomics` of these.
pub const RATE_FRACTIONAL: u128 = 1_000_000_000_000_000_000;

/// Atomic units per basis point: `RATE_FRACTIONAL / 10_000`.
pub const ATOMICS_PER_BASIS_POINT: u128 = 100_000_000_000_000;

/// An exact fractional rate with eighteen decimal places, held as an
/// integer count of `1 / RATE_FRACTIONAL` atomic units. No floating point
/// is involved anywhere.
#[derive(Clone, Copy, Debug, PartialEq, Eq, Structural)]
pub struct Rate {
    pub atomics: u128,
}

impl Rate {
    /// The rate `bps / 10_000`, exactly: basis points are hundredths of a
    /// percent, and each is `10^14` atomic units.
    pub fn from_basis_points(bps: u16) -> (r: Rate)
        ensures
            r.atomics == bps * ATOMICS_PER_BASIS_POINT,
    {
        Rate { atomics: (bps as u128) * ATOMICS_PER_BASIS_POINT }
    }

    /// Comparison of two rates.
    pub fn le(&self, other: &Rate) -> (r: bool)
        ensures
            r == (self.atomics <= other.atomics),
    {
        self.atomics <= other.atomics
    }
}

} // verus!
