use vstd::prelude::*;

verus! {

/// The capabilities that the rasterizer needs of a coordinate type: ordering,
/// closed addition, subtraction and multiplication, and the constants 0, 1, 2.
///
/// Each value stands for the mathematical integer `as_int()`, and the type
/// represents exactly the integers in `[min_int(), max_int()]`. Nothing is
/// assumed about whether that range holds negative numbers.
pub trait LineRSInt: Sized + Copy {
    /// The integer this value stands for.
    spec fn as_int(self) -> int;

    /// The least representable integer.
    spec fn min_int() -> int;

    /// The greatest representable integer.
    spec fn max_int() -> int;

    proof fn lemma_in_range(v: Self)
        ensures
            Self::min_int() <= v.as_int() <= Self::max_int(),
    ;

    proof fn lemma_range_holds_small_constants()
        ensures
            Self::min_int() <= 0,
            2 <= Self::max_int(),
    ;

    /// Distinct values stand for distinct integers.
    proof fn lemma_as_int_injective(a: Self, b: Self)
        ensures
            a.as_int() == b.as_int() ==> a == b,
    ;

    fn line_rs_zero() -> (r: Self)
        ensures
            r.as_int() == 0,
    ;

    fn line_rs_one() -> (r: Self)
        ensures
            r.as_int() == 1,
    ;

    fn line_rs_two() -> (r: Self)
        ensures
            r.as_int() == 2,
    ;

    fn line_rs_lt(self, rhs: Self) -> (r: bool)
        ensures
            r == (self.as_int() < rhs.as_int()),
    ;

    fn line_rs_eq(self, rhs: Self) -> (r: bool)
        ensures
            r == (self.as_int() == rhs.as_int()),
    ;

    fn line_rs_add(self, rhs: Self) -> (r: Self)
        requires
            Self::min_int() <= self.as_int() + rhs.as_int() <= Self::max_int(),
        ensures
            r.as_int() == self.as_int() + rhs.as_int(),
    ;

    fn line_rs_sub(self, rhs: Self) -> (r: Self)
        requires
            Self::min_int() <= self.as_int() - rhs.as_int() <= Self::max_int(),
        ensures
            r.as_int() == self.as_int() - rhs.as_int(),
    ;

    fn line_rs_mul(self, rhs: Self) -> (r: Self)
        requires
            Self::min_int() <= self.as_int() * rhs.as_int() <= Self::max_int(),
        ensures
            r.as_int() == self.as_int() * rhs.as_int(),
    ;
}

impl LineRSInt for i8 {
    open spec fn as_int(self) -> int {
        self as int
    }

    open spec fn min_int() -> int {
        i8::MIN as int
    }

    open spec fn max_int() -> int {
        i8::MAX as int
    }

    proof fn lemma_in_range(v: Self) {
    }

    proof fn lemma_range_holds_small_constants() {
    }

    proof fn lemma_as_int_injective(a: Self, b: Self) {
    }

    fn line_rs_zero() -> (r: Self) {
        0
    }

    fn line_rs_one() -> (r: Self) {
        1
    }

    fn line_rs_two() -> (r: Self) {
        2
    }

    fn line_rs_lt(self, rhs: Self) -> (r: bool) {
        self < rhs
    }

    fn line_rs_eq(self, rhs: Self) -> (r: bool) {
        self == rhs
    }

    fn line_rs_add(self, rhs: Self) -> (r: Self) {
        self + rhs
    }

    fn line_rs_sub(self, rhs: Self) -> (r: Self) {
        self - rhs
    }

    fn line_rs_mul(self, rhs: Self) -> (r: Self) {
        self * rhs
    }
}

impl LineRSInt for i16 {
    open spec fn as_int(self) -> int {
        self as int
    }

    open spec fn min_int() -> int {
        i16::MIN as int
    }

    open spec fn max_int() -> int {
        i16::MAX as int
    }

    proof fn lemma_in_range(v: Self) {
    }

    proof fn lemma_range_holds_small_constants() {
    }

    proof fn lemma_as_int_injective(a: Self, b: Self) {
    }

    fn line_rs_zero() -> (r: Self) {
        0
    }

    fn line_rs_one() -> (r: Self) {
        1
    }

    fn line_rs_two() -> (r: Self) {
        2
    }

    fn line_rs_lt(self, rhs: Self) -> (r: bool) {
        self < rhs
    }

    fn line_rs_eq(self, rhs: Self) -> (r: bool) {
        self == rhs
    }

    fn line_rs_add(self, rhs: Self) -> (r: Self) {
        self + rhs
    }

    fn line_rs_sub(self, rhs: Self) -> (r: Self) {
        self - rhs
    }

    fn line_rs_mul(self, rhs: Self) -> (r: Self) {
        self * rhs
    }
}

impl LineRSInt for i32 {
    open spec fn as_int(self) -> int {
        self as int
    }

    open spec fn min_int() -> int {
        i32::MIN as int
    }

    open spec fn max_int() -> int {
        i32::MAX as int
    }

    proof fn lemma_in_range(v: Self) {
    }

    proof fn lemma_range_holds_small_constants() {
    }

    proof fn lemma_as_int_injective(a: Self, b: Self) {
    }

    fn line_rs_zero() -> (r: Self) {
        0
    }

    fn line_rs_one() -> (r: Self) {
        1
    }

    fn line_rs_two() -> (r: Self) {
        2
    }

    fn line_rs_lt(self, rhs: Self) -> (r: bool) {
        self < rhs
    }

    fn line_rs_eq(self, rhs: Self) -> (r: bool) {
        self == rhs
    }

    fn line_rs_add(self, rhs: Self) -> (r: Self) {
        self + rhs
    }

    fn line_rs_sub(self, rhs: Self) -> (r: Self) {
        self - rhs
    }

    fn line_rs_mul(self, rhs: Self) -> (r: Self) {
        self * rhs
    }
}

impl LineRSInt for isize {
    open spec fn as_int(self) -> int {
        self as int
    }

    open spec fn min_int() -> int {
        isize::MIN as int
    }

    open spec fn max_int() -> int {
        isize::MAX as int
    }

    proof fn lemma_in_range(v: Self) {
    }

    proof fn lemma_range_holds_small_constants() {
    }

    proof fn lemma_as_int_injective(a: Self, b: Self) {
    }

    fn line_rs_zero() -> (r: Self) {
        0
    }

    fn line_rs_one() -> (r: Self) {
        1
    }

    fn line_rs_two() -> (r: Self) {
        2
    }

    fn line_rs_lt(self, rhs: Self) -> (r: bool) {
        self < rhs
    }

    fn line_rs_eq(self, rhs: Self) -> (r: bool) {
        self == rhs
    }

    fn line_rs_add(self, rhs: Self) -> (r: Self) {
        self + rhs
    }

    fn line_rs_sub(self, rhs: Self) -> (r: Self) {
        self - rhs
    }

    fn line_rs_mul(self, rhs: Self) -> (r: Self) {
        self * rhs
    }
}

impl LineRSInt for u8 {
    open spec fn as_int(self) -> int {
        self as int
    }

    open spec fn min_int() -> int {
        u8::MIN as int
    }

    open spec fn max_int() -> int {
        u8::MAX as int
    }

    proof fn lemma_in_range(v: Self) {
    }

    proof fn lemma_range_holds_small_constants() {
    }

    proof fn lemma_as_int_injective(a: Self, b: Self) {
    }

    fn line_rs_zero() -> (r: Self) {
        0
    }

    fn line_rs_one() -> (r: Self) {
        1
    }

    fn line_rs_two() -> (r: Self) {
        2
    }

    fn line_rs_lt(self, rhs: Self) -> (r: bool) {
        self < rhs
    }

    fn line_rs_eq(self, rhs: Self) -> (r: bool) {
        self == rhs
    }

    fn line_rs_add(self, rhs: Self) -> (r: Self) {
        self + rhs
    }

    fn line_rs_sub(self, rhs: Self) -> (r: Self) {
        self - rhs
    }

    fn line_rs_mul(self, rhs: Self) -> (r: Self) {
        self * rhs
    }
}

impl LineRSInt for u16 {
    open spec fn as_int(self) -> int {
        self as int
    }

    open spec fn min_int() -> int {
        u16::MIN as int
    }

    open spec fn max_int() -> int {
        u16::MAX as int
    }

    proof fn lemma_in_range(v: Self) {
    }

    proof fn lemma_range_holds_small_constants() {
    }

    proof fn lemma_as_int_injective(a: Self, b: Self) {
    }

    fn line_rs_zero() -> (r: Self) {
        0
    }

    fn line_rs_one() -> (r: Self) {
        1
    }

    fn line_rs_two() -> (r: Self) {
        2
    }

    fn line_rs_lt(self, rhs: Self) -> (r: bool) {
        self < rhs
    }

    fn line_rs_eq(self, rhs: Self) -> (r: bool) {
        self == rhs
    }

    fn line_rs_add(self, rhs: Self) -> (r: Self) {
        self + rhs
    }

    fn line_rs_sub(self, rhs: Self) -> (r: Self) {
        self - rhs
    }

    fn line_rs_mul(self, rhs: Self) -> (r: Self) {
        self * rhs
    }
}

impl LineRSInt for u32 {
    open spec fn as_int(self) -> int {
        self as int
    }

    open spec fn min_int() -> int {
        u32::MIN as int
    }

    open spec fn max_int() -> int {
        u32::MAX as int
    }

    proof fn lemma_in_range(v: Self) {
    }

    proof fn lemma_range_holds_small_constants() {
    }

    proof fn lemma_as_int_injective(a: Self, b: Self) {
    }

    fn line_rs_zero() -> (r: Self) {
        0
    }

    fn line_rs_one() -> (r: Self) {
        1
    }

    fn line_rs_two() -> (r: Self) {
        2
    }

    fn line_rs_lt(self, rhs: Self) -> (r: bool) {
        self < rhs
    }

    fn line_rs_eq(self, rhs: Self) -> (r: bool) {
        self == rhs
    }

    fn line_rs_add(self, rhs: Self) -> (r: Self) {
        self + rhs
    }

    fn line_rs_sub(self, rhs: Self) -> (r: Self) {
        self - rhs
    }

    fn line_rs_mul(self, rhs: Self) -> (r: Self) {
        self * rhs
    }
}

impl LineRSInt for usize {
    open spec fn as_int(self) -> int {
        self as int
    }

    open spec fn min_int() -> int {
        usize::MIN as int
    }

    open spec fn max_int() -> int {
        usize::MAX as int
    }

    proof fn lemma_in_range(v: Self) {
    }

    proof fn lemma_range_holds_small_constants() {
    }

    proof fn lemma_as_int_injective(a: Self, b: Self) {
    }

    fn line_rs_zero() -> (r: Self) {
        0
    }

    fn line_rs_one() -> (r: Self) {
        1
    }

    fn line_rs_two() -> (r: Self) {
        2
    }

    fn line_rs_lt(self, rhs: Self) -> (r: bool) {
        self < rhs
    }

    fn line_rs_eq(self, rhs: Self) -> (r: bool) {
        self == rhs
    }

    fn line_rs_add(self, rhs: Self) -> (r: Self) {
        self + rhs
    }

    fn line_rs_sub(self, rhs: Self) -> (r: Self) {
        self - rhs
    }

    fn line_rs_mul(self, rhs: Self) -> (r: Self) {
        self * rhs
    }
}

} // verus!
