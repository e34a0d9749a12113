use vstd::prelude::*;

verus! {

/// A type that can serve as a die's face domain.
///
/// A `Rollable` value stands for a natural number (its *magnitude*,
/// `as_nat`), and a uniformly distributed face between 1 and a given
/// maximum can be drawn for it. Implementations are provided for the
/// fixed-width unsigned integer types and for `usize`; a user type can
/// implement the trait as well, as long as its values stand for
/// magnitudes no larger than `u128::MAX`. Negative faces are out of
/// scope: a drawn face always has magnitude at least 1.
pub trait Rollable: Copy + Sized {
    /// The numeric magnitude of a face value.
    spec fn as_nat(self) -> nat;

    /// The largest magnitude a value of this type can take.
    spec fn max_nat() -> nat;

    /// Every value's magnitude is bounded by `max_nat`.
    proof fn lemma_as_nat_bounded(self)
        ensures
            self.as_nat() <= Self::max_nat(),
    ;

    /// `max_nat` fits in 128 bits, so every face value can be carried
    /// through `to_u128_value`.
    proof fn lemma_max_nat_fits()
        ensures
            Self::max_nat() <= u128::MAX,
    ;

    /// Draws a uniformly distributed face between 1 and `max`.
    fn roll(max: Self) -> (r: Self)
        requires
            1 <= max.as_nat(),
        ensures
            1 <= r.as_nat() <= max.as_nat(),
    ;

    /// The value of this type with the given magnitude, if one exists.
    fn from_u128_value(v: u128) -> (r: Option<Self>)
        ensures
            match r {
                Some(x) => x.as_nat() == v as nat,
                None => v as nat > Self::max_nat(),
            },
    ;

    /// The magnitude of this value, as a 128-bit integer.
    fn to_u128_value(self) -> (r: u128)
        ensures
            r as nat == self.as_nat(),
    ;
}

/// Relies on rand::random_range over the inclusive range `1..=max`:
/// it returns a uniformly distributed value inside that range (sampled
/// without modulo bias) and panics only when the range is empty.
#[verifier::external_body]
fn sample_u8(max: u8) -> (r: u8)
    requires
        1 <= max,
    ensures
        1 <= r <= max,
{
    rand::random_range(1..=max)
}

/// Relies on rand::random_range over the inclusive range `1..=max`:
/// it returns a uniformly distributed value inside that range (sampled
/// without modulo bias) and panics only when the range is empty.
#[verifier::external_body]
fn sample_u16(max: u16) -> (r: u16)
    requires
        1 <= max,
    ensures
        1 <= r <= max,
{
    rand::random_range(1..=max)
}

/// Relies on rand::random_range over the inclusive range `1..=max`:
/// it returns a uniformly distributed value inside that range (sampled
/// without modulo bias) and panics only when the range is empty.
#[verifier::external_body]
fn sample_u32(max: u32) -> (r: u32)
    requires
        1 <= max,
    ensures
        1 <= r <= max,
{
    rand::random_range(1..=max)
}

/// Relies on rand::random_range over the inclusive range `1..=max`:
/// it returns a uniformly distributed value inside that range (sampled
/// without modulo bias) and panics only when the range is empty.
#[verifier::external_body]
fn sample_u64(max: u64) -> (r: u64)
    requires
        1 <= max,
    ensures
        1 <= r <= max,
{
    rand::random_range(1..=max)
}

/// Relies on rand::random_range over the inclusive range `1..=max`:
/// it returns a uniformly distributed value inside that range (sampled
/// without modulo bias) and panics only when the range is empty.
#[verifier::external_body]
fn sample_u128(max: u128) -> (r: u128)
    requires
        1 <= max,
    ensures
        1 <= r <= max,
{
    rand::random_range(1..=max)
}

/// Relies on rand::random_range over the inclusive range `1..=max`:
/// it returns a uniformly distributed value inside that range (sampled
/// without modulo bias) and panics only when the range is empty.
#[verifier::external_body]
fn sample_usize(max: usize) -> (r: usize)
    requires
        1 <= max,
    ensures
        1 <= r <= max,
{
    rand::random_range(1..=max)
}

impl Rollable for u8 {
    open spec fn as_nat(self) -> nat {
        self as nat
    }

    open spec fn max_nat() -> nat {
        u8::MAX as nat
    }

    proof fn lemma_as_nat_bounded(self) {
    }

    proof fn lemma_max_nat_fits() {
    }

    fn roll(max: u8) -> u8 {
        sample_u8(max)
    }

    fn from_u128_value(v: u128) -> Option<u8> {
        if v <= u8::MAX as u128 {
            Some(v as u8)
        } else {
            None
        }
    }

    fn to_u128_value(self) -> u128 {
        self as u128
    }
}

impl Rollable for u16 {
    open spec fn as_nat(self) -> nat {
        self as nat
    }

    open spec fn max_nat() -> nat {
        u16::MAX as nat
    }

    proof fn lemma_as_nat_bounded(self) {
    }

    proof fn lemma_max_nat_fits() {
    }

    fn roll(max: u16) -> u16 {
        sample_u16(max)
    }

    fn from_u128_value(v: u128) -> Option<u16> {
        if v <= u16::MAX as u128 {
            Some(v as u16)
        } else {
            None
        }
    }

    fn to_u128_value(self) -> u128 {
        self as u128
    }
}

impl Rollable for u32 {
    open spec fn as_nat(self) -> nat {
        self as nat
    }

    open spec fn max_nat() -> nat {
        u32::MAX as nat
    }

    proof fn lemma_as_nat_bounded(self) {
    }

    proof fn lemma_max_nat_fits() {
    }

    fn roll(max: u32) -> u32 {
        sample_u32(max)
    }

    fn from_u128_value(v: u128) -> Option<u32> {
        if v <= u32::MAX as u128 {
            Some(v as u32)
        } else {
            None
        }
    }

    fn to_u128_value(self) -> u128 {
        self as u128
    }
}

impl Rollable for u64 {
    open spec fn as_nat(self) -> nat {
        self as nat
    }

    open spec fn max_nat() -> nat {
        u64::MAX as nat
    }

    proof fn lemma_as_nat_bounded(self) {
    }

    proof fn lemma_max_nat_fits() {
    }

    fn roll(max: u64) -> u64 {
        sample_u64(max)
    }

    fn from_u128_value(v: u128) -> Option<u64> {
        if v <= u64::MAX as u128 {
            Some(v as u64)
        } else {
            None
        }
    }

    fn to_u128_value(self) -> u128 {
        self as u128
    }
}

impl Rollable for u128 {
    open spec fn as_nat(self) -> nat {
        self as nat
    }

    open spec fn max_nat() -> nat {
        u128::MAX as nat
    }

    proof fn lemma_as_nat_bounded(self) {
    }

    proof fn lemma_max_nat_fits() {
    }

    fn roll(max: u128) -> u128 {
        sample_u128(max)
    }

    fn from_u128_value(v: u128) -> Option<u128> {
        Some(v)
    }

    fn to_u128_value(self) -> u128 {
        self
    }
}

impl Rollable for usize {
    open spec fn as_nat(self) -> nat {
        self as nat
    }

    open spec fn max_nat() -> nat {
        usize::MAX as nat
    }

    proof fn lemma_as_nat_bounded(self) {
    }

    proof fn lemma_max_nat_fits() {
    }

    fn roll(max: usize) -> usize {
        sample_usize(max)
    }

    fn from_u128_value(v: u128) -> Option<usize> {
        if v <= usize::MAX as u128 {
            Some(v as usize)
        } else {
            None
        }
    }

    fn to_u128_value(self) -> u128 {
        self as u128
    }
}

} // verus!
