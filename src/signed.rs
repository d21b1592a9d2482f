use vstd::prelude::*;

use crate::num::LineRSInt;

verus! {

/// Absolute value of a mathematical integer.
pub open spec fn abs(v: int) -> int {
    if v < 0 {
        -v
    } else {
        v
    }
}

/// Sign of a signed-magnitude value; `Pos` covers zero.
#[derive(Debug, Clone, Copy)]
pub enum Sign {
    Pos,
    Neg,
}

/// A possibly negative quantity held as a non-negative magnitude of `T` and a
/// sign, so that it can be carried even where `T` has no negative values.
#[derive(Debug, Clone, Copy)]
pub struct SignedInt<T: LineRSInt> {
    pub magnitude: T,
    pub sign: Sign,
}

impl<T: LineRSInt> SignedInt<T> {
    /// The magnitude is non-negative, and a negative sign comes with a
    /// non-zero magnitude: there is no negative zero.
    pub open spec fn wf(self) -> bool {
        &&& self.magnitude.as_int() >= 0
        &&& (self.sign is Neg ==> self.magnitude.as_int() > 0)
    }

    /// The integer this value stands for.
    pub open spec fn value(self) -> int {
        match self.sign {
            Sign::Pos => self.magnitude.as_int(),
            Sign::Neg => -self.magnitude.as_int(),
        }
    }

    /// `a - b`, computed by subtracting the smaller operand from the larger.
    pub fn diff_of(a: T, b: T) -> (r: Self)
        requires
            abs(a.as_int() - b.as_int()) <= T::max_int(),
        ensures
            r.wf(),
            r.value() == a.as_int() - b.as_int(),
    {
        proof {
            T::lemma_range_holds_small_constants();
        }
        if !a.line_rs_lt(b) {
            SignedInt { magnitude: a.line_rs_sub(b), sign: Sign::Pos }
        } else {
            SignedInt { magnitude: b.line_rs_sub(a), sign: Sign::Neg }
        }
    }

    /// The signed-magnitude form of a plain value.
    pub fn from(val: T) -> (r: Self)
        requires
            -T::max_int() <= val.as_int(),
        ensures
            r.wf(),
            r.value() == val.as_int(),
    {
        proof {
            T::lemma_in_range(val);
        }
        SignedInt::diff_of(val, T::line_rs_zero())
    }

    /// `self - rhs`. Never subtracts a larger value from a smaller one in `T`.
    pub fn sub(self, rhs: T) -> (r: Self)
        requires
            self.wf(),
            -T::max_int() <= rhs.as_int(),
            abs(self.value() - rhs.as_int()) <= T::max_int(),
        ensures
            r.wf(),
            r.value() == self.value() - rhs.as_int(),
        decreases
                if rhs.as_int() < 0 {
                    2int
                } else {
                    0int
                },
    {
        proof {
            T::lemma_in_range(rhs);
            T::lemma_in_range(self.magnitude);
        }
        let rhs_signed = SignedInt::from(rhs);
        if let Sign::Neg = rhs_signed.sign {
            // subtracting a negative value adds its magnitude
            return self.add(rhs_signed.magnitude);
        }
        if let Sign::Neg = self.sign {
            // -a - b == -(a + b)
            return SignedInt { magnitude: self.magnitude.line_rs_add(rhs), sign: Sign::Neg };
        }
        SignedInt::diff_of(self.magnitude, rhs)
    }

    /// `self + rhs`. Never subtracts a larger value from a smaller one in `T`.
    pub fn add(self, rhs: T) -> (r: Self)
        requires
            self.wf(),
            -T::max_int() <= rhs.as_int(),
            abs(self.value() + rhs.as_int()) <= T::max_int(),
        ensures
            r.wf(),
            r.value() == self.value() + rhs.as_int(),
        decreases
                if rhs.as_int() < 0 {
                    2int
                } else {
                    1int
                },
    {
        proof {
            T::lemma_in_range(rhs);
            T::lemma_in_range(self.magnitude);
        }
        let rhs_signed = SignedInt::from(rhs);
        if let Sign::Neg = rhs_signed.sign {
            // adding a negative value subtracts its magnitude
            return self.sub(rhs_signed.magnitude);
        }
        if let Sign::Neg = self.sign {
            // -a + b == b - a
            return rhs_signed.sub(self.magnitude);
        }
        SignedInt { magnitude: self.magnitude.line_rs_add(rhs), sign: Sign::Pos }
    }
}

} // verus!
