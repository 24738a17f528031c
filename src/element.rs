//! Signed integer element values as kernels see them: a value and the
//! vectorization width it is broadcast over.
use vstd::prelude::*;

verus! {

/// Signed integer element types.
pub trait Int: Sized {
    /// The value held, as a mathematical integer.
    spec fn spec_val(&self) -> int;

    /// The vectorization width.
    spec fn spec_vectorization(&self) -> u8;

    /// What `val` becomes when stored in this type (two's-complement
    /// truncation to its width).
    spec fn spec_wrap(val: i64) -> int;

    /// A scalar holding `val`, truncated to the type's width.
    fn new(val: i64) -> (r: Self)
        ensures
            r.spec_val() == Self::spec_wrap(val),
            r.spec_vectorization() == 1,
    ;

    /// `val`, truncated to the type's width, broadcast `vectorization` wide
    /// (the width is kept modulo 256).
    fn vectorized(val: i64, vectorization: u32) -> (r: Self)
        ensures
            r.spec_val() == Self::spec_wrap(val),
            r.spec_vectorization() == vectorization as u8,
    ;
}

/// A 32-bit signed integer element.
#[derive(Clone, Copy, Debug, PartialEq, Eq, Structural)]
pub struct I32 {
    pub val: i32,
    pub vectorization: u8,
}

/// A 64-bit signed integer element.
#[derive(Clone, Copy, Debug, PartialEq, Eq, Structural)]
pub struct I64 {
    pub val: i64,
    pub vectorization: u8,
}

impl Int for I32 {
    open spec fn spec_val(&self) -> int {
        self.val as int
    }

    open spec fn spec_vectorization(&self) -> u8 {
        self.vectorization
    }

    open spec fn spec_wrap(val: i64) -> int {
        (val as i32) as int
    }

    fn new(val: i64) -> (r: I32) {
        I32 { val: #[verifier::truncate] (val as i32), vectorization: 1 }
    }

    fn vectorized(val: i64, vectorization: u32) -> (r: I32) {
        if vectorization == 1 {
            Self::new(val)
        } else {
            I32 {
                val: #[verifier::truncate] (val as i32),
                vectorization: #[verifier::truncate] (vectorization as u8),
            }
        }
    }
}

impl Int for I64 {
    open spec fn spec_val(&self) -> int {
        self.val as int
    }

    open spec fn spec_vectorization(&self) -> u8 {
        self.vectorization
    }

    open spec fn spec_wrap(val: i64) -> int {
        val as int
    }

    fn new(val: i64) -> (r: I64) {
        I64 { val, vectorization: 1 }
    }

    fn vectorized(val: i64, vectorization: u32) -> (r: I64) {
        if vectorization == 1 {
            Self::new(val)
        } else {
            I64 { val, vectorization: #[verifier::truncate] (vectorization as u8) }
        }
    }
}

impl From<i64> for I64 {
    fn from(value: i64) -> (r: I64)
        ensures
            r == (I64 { val: value, vectorization: 1 }),
    {
        I64 { val: value, vectorization: 1 }
    }
}

impl vstd::std_specs::convert::FromSpecImpl<i64> for I64 {
    open spec fn obeys_from_spec() -> bool {
        true
    }

    open spec fn from_spec(v: i64) -> I64 {
        I64 { val: v, vectorization: 1 }
    }
}

impl From<i32> for I32 {
    fn from(value: i32) -> (r: I32)
        ensures
            r == (I32 { val: value, vectorization: 1 }),
    {
        I32 { val: value, vectorization: 1 }
    }
}

impl vstd::std_specs::convert::FromSpecImpl<i32> for I32 {
    open spec fn obeys_from_spec() -> bool {
        true
    }

    open spec fn from_spec(v: i32) -> I32 {
        I32 { val: v, vectorization: 1 }
    }
}

} // verus!
