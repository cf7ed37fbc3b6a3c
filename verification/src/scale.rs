//! Scale factors between linked worlds, kept as exact ratios.

use vstd::prelude::*;

verus! {

/// A positive scale factor `num / den`.
///
/// Lengths are multiplied by it when the controlled body passes a portal.
/// Keeping numerator and denominator apart makes the factor of the portal on
/// the far side, the reciprocal, exact.
#[derive(Clone, Copy, Debug, PartialEq, Eq, Structural)]
pub struct Scale {
    pub num: u32,
    pub den: u32,
}

impl Scale {
    /// A scale factor is a positive ratio.
    pub open spec fn wf(self) -> bool {
        self.num > 0 && self.den > 0
    }

    /// The factor `den / num`.
    pub open spec fn spec_recip(self) -> Scale {
        Scale { num: self.den, den: self.num }
    }

    /// `self * other == 1`, stated without division.
    pub open spec fn cancels(self, other: Scale) -> bool {
        self.num as int * other.num as int == self.den as int * other.den as int
    }

    /// The ratio `num / den`, or `None` when either part is zero.
    pub fn new(num: u32, den: u32) -> (r: Option<Scale>)
        ensures
            r == if num > 0 && den > 0 {
                Some(Scale { num, den })
            } else {
                None::<Scale>
            },
    {
        if num > 0 && den > 0 {
            Some(Scale { num, den })
        } else {
            None
        }
    }

    /// The factor that leaves every length as it is.
    pub fn identity() -> (r: Scale)
        ensures
            r == (Scale { num: 1, den: 1 }),
            r.wf(),
    {
        Scale { num: 1, den: 1 }
    }

    /// The factor of the portal on the other side of a link.
    pub fn recip(&self) -> (r: Scale)
        ensures
            r == self.spec_recip(),
    {
        Scale { num: self.den, den: self.num }
    }

    /// Whether the factor changes no length.
    pub fn is_identity(&self) -> (b: bool)
        ensures
            b == (self.num == self.den),
    {
        self.num == self.den
    }
}

/// A factor and its reciprocal multiply to one, and taking the reciprocal
/// twice gives the factor back.
pub proof fn lemma_recip_cancels(s: Scale)
    ensures
        s.cancels(s.spec_recip()),
        s.spec_recip().spec_recip() == s,
        s.wf() ==> s.spec_recip().wf(),
{
    assert(s.num as int * s.den as int == s.den as int * s.num as int) by (nonlinear_arith);
}

} // verus!
