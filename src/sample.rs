use vstd::prelude::*;

verus! {

/// Halves an integer, rounding toward zero.
///
/// This is what a pair average computed through a 64-bit float gives for an
/// integer element type: the float sum and its half are exact, and converting
/// back truncates the fraction.
pub open spec fn half_toward_zero(x: int) -> int {
    if x >= 0 {
        x / 2
    } else {
        -((-x) / 2)
    }
}

/// An element type that a mipmap can hold: a number whose pair average
/// can be taken.
pub trait Sample: Copy + Sized {
    /// The number that a value stands for.
    spec fn value(self) -> int;

    /// The average of two values, as an element.
    spec fn mean_spec(a: Self, b: Self) -> Self;

    /// The average holds the half of the sum of the two numbers, rounded
    /// toward zero.
    proof fn lemma_mean_value(a: Self, b: Self)
        ensures
            Self::mean_spec(a, b).value() == half_toward_zero(a.value() + b.value()),
    ;

    /// Computes the average of two values.
    fn mean(a: Self, b: Self) -> (r: Self)
        ensures
            r == Self::mean_spec(a, b),
    ;
}

impl Sample for i8 {
    open spec fn value(self) -> int {
        self as int
    }

    open spec fn mean_spec(a: i8, b: i8) -> i8 {
        half_toward_zero(a + b) as i8
    }

    proof fn lemma_mean_value(a: i8, b: i8) {
    }

    fn mean(a: i8, b: i8) -> (r: i8) {
        let s: i64 = a as i64 + b as i64;
        if s >= 0 {
            (s / 2) as i8
        } else {
            -((-s) / 2) as i8
        }
    }
}

impl Sample for i16 {
    open spec fn value(self) -> int {
        self as int
    }

    open spec fn mean_spec(a: i16, b: i16) -> i16 {
        half_toward_zero(a + b) as i16
    }

    proof fn lemma_mean_value(a: i16, b: i16) {
    }

    fn mean(a: i16, b: i16) -> (r: i16) {
        let s: i64 = a as i64 + b as i64;
        if s >= 0 {
            (s / 2) as i16
        } else {
            -((-s) / 2) as i16
        }
    }
}

impl Sample for i32 {
    open spec fn value(self) -> int {
        self as int
    }

    open spec fn mean_spec(a: i32, b: i32) -> i32 {
        half_toward_zero(a + b) as i32
    }

    proof fn lemma_mean_value(a: i32, b: i32) {
    }

    fn mean(a: i32, b: i32) -> (r: i32) {
        let s: i64 = a as i64 + b as i64;
        if s >= 0 {
            (s / 2) as i32
        } else {
            -((-s) / 2) as i32
        }
    }
}

impl Sample for u8 {
    open spec fn value(self) -> int {
        self as int
    }

    open spec fn mean_spec(a: u8, b: u8) -> u8 {
        half_toward_zero(a + b) as u8
    }

    proof fn lemma_mean_value(a: u8, b: u8) {
    }

    fn mean(a: u8, b: u8) -> (r: u8) {
        let s: u64 = a as u64 + b as u64;
        (s / 2) as u8
    }
}

impl Sample for u16 {
    open spec fn value(self) -> int {
        self as int
    }

    open spec fn mean_spec(a: u16, b: u16) -> u16 {
        half_toward_zero(a + b) as u16
    }

    proof fn lemma_mean_value(a: u16, b: u16) {
    }

    fn mean(a: u16, b: u16) -> (r: u16) {
        let s: u64 = a as u64 + b as u64;
        (s / 2) as u16
    }
}

impl Sample for u32 {
    open spec fn value(self) -> int {
        self as int
    }

    open spec fn mean_spec(a: u32, b: u32) -> u32 {
        half_toward_zero(a + b) as u32
    }

    proof fn lemma_mean_value(a: u32, b: u32) {
    }

    fn mean(a: u32, b: u32) -> (r: u32) {
        let s: u64 = a as u64 + b as u64;
        (s / 2) as u32
    }
}

} // verus!
