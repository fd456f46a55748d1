//! The number domain of the target runtime: every number is one 24-bit
//! machine word, and arithmetic wraps modulo `2^24`.
use vstd::prelude::*;

use crate::text::{decimal, decimal_string};

verus! {

/// `2^24`, the number of values a runtime word can hold.
pub const U24_MODULUS: u32 = 16777216;

/// `2^23`, the first value out of reach of a signed runtime word.
pub const I24_BOUND: i32 = 8388608;

/// The value that a runtime word holds for the unsigned number `n`.
pub open spec fn wrap_u24(n: int) -> nat {
    (n % (U24_MODULUS as int)) as nat
}

/// The value that a runtime word holds for the signed number `n`: the one in
/// `[-2^23, 2^23)` that is congruent to `n` modulo `2^24`.
pub open spec fn wrap_i24(n: int) -> int {
    let r = n % (U24_MODULUS as int);
    if r >= I24_BOUND as int {
        r - U24_MODULUS as int
    } else {
        r
    }
}

/// The value of an unsigned integer given by its base-`2^32` digits, least
/// significant first.
pub open spec fn limbs_value(limbs: Seq<u32>) -> nat
    decreases limbs.len(),
{
    if limbs.len() == 0 {
        0
    } else {
        limbs[0] as nat + 4294967296 * limbs_value(limbs.drop_first())
    }
}

/// A number literal of the intermediate representation.
#[derive(Clone, Copy, Debug, PartialEq, Eq, Structural)]
pub enum Number {
    /// An unsigned word; its value is below `2^24`.
    U24(u32),
    /// A signed word; its value is in `[-2^23, 2^23)`.
    I24(i32),
    /// A floating-point word, as the bits of the nearest single-precision
    /// float; the runtime narrows it further.
    F24(u32),
}

impl Number {
    /// The number holds a value that a runtime word can hold.
    pub open spec fn wf(self) -> bool {
        match self {
            Number::U24(v) => v < U24_MODULUS,
            Number::I24(v) => -I24_BOUND <= v < I24_BOUND,
            Number::F24(_) => true,
        }
    }

    /// The unsigned word for `v`, wrapped into 24 bits.
    pub fn from_u32(v: u32) -> (r: Number)
        ensures
            r == Number::U24(wrap_u24(v as int) as u32),
            r.wf(),
    {
        Number::U24(v % U24_MODULUS)
    }

    /// The signed word for `v`, wrapped into 24 bits.
    pub fn from_i32(v: i32) -> (r: Number)
        ensures
            r == Number::I24(wrap_i24(v as int) as i32),
            r.wf(),
    {
        let m: i32 = v % (U24_MODULUS as i32);
        // `%` keeps the sign of `v`: move the remainder into `[0, 2^24)`.
        let r: i32 = if m < 0 {
            m + U24_MODULUS as i32
        } else {
            m
        };
        assert(r as int == (v as int) % (U24_MODULUS as int));
        if r >= I24_BOUND {
            Number::I24(r - U24_MODULUS as i32)
        } else {
            Number::I24(r)
        }
    }

    /// The unsigned word for an integer literal given by its base-`2^32`
    /// digits, least significant first: the literal modulo `2^24`.
    pub fn from_limbs(limbs: &Vec<u32>) -> (r: Number)
        ensures
            r == Number::U24(wrap_u24(limbs_value(limbs@) as int) as u32),
            r.wf(),
    {
        if limbs.len() == 0 {
            Number::U24(0)
        } else {
            proof {
                lemma_limbs_wrap(limbs@);
            }
            Number::U24(limbs[0] % U24_MODULUS)
        }
    }
}

/// Only the lowest digit decides the value modulo `2^24`.
pub proof fn lemma_limbs_wrap(limbs: Seq<u32>)
    requires
        limbs.len() > 0,
    ensures
        wrap_u24(limbs_value(limbs) as int) == wrap_u24(limbs[0] as int),
{
    let rest = limbs_value(limbs.drop_first()) as int;
    let a = limbs[0] as int;
    assert(4294967296 * rest == 16777216 * (256 * rest)) by (nonlinear_arith);
    vstd::arithmetic::div_mod::lemma_mod_multiples_vanish(256 * rest, a, 16777216);
}

/// An unsigned runtime word.
#[allow(non_camel_case_types)]
pub struct u24(u32);

impl View for u24 {
    type V = nat;

    closed spec fn view(&self) -> nat {
        self.0 as nat
    }
}

impl u24 {
    #[verifier::type_invariant]
    spec fn fits(&self) -> bool {
        self.0 < U24_MODULUS
    }

    /// The word for `value`, wrapped into 24 bits.
    pub fn new(value: u32) -> (r: u24)
        ensures
            r@ == wrap_u24(value as int),
    {
        u24(value % U24_MODULUS)
    }

    /// The value of the word.
    pub fn get(&self) -> (r: u32)
        ensures
            r as nat == self@,
            r < U24_MODULUS,
    {
        proof {
            use_type_invariant(self);
        }
        self.0
    }

    /// The sum of two words, wrapped into 24 bits.
    pub fn __add__(&self, other: &Self) -> (r: u24)
        ensures
            r@ == wrap_u24((self@ + other@) as int),
    {
        proof {
            use_type_invariant(self);
            use_type_invariant(other);
        }
        u24((self.0 + other.0) % U24_MODULUS)
    }

    /// The word in decimal.
    pub fn __str__(&self) -> (r: String)
        ensures
            r@ == decimal(self@),
    {
        decimal_string(self.0)
    }

    /// The number literal that carries this word.
    pub fn to_bend(&self) -> (r: Number)
        ensures
            r == Number::U24(self@ as u32),
            r.wf(),
    {
        proof {
            use_type_invariant(self);
        }
        Number::U24(self.0)
    }
}

} // verus!
