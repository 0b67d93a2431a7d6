//! Random Number generation for the Mesh, from the `rand` crate's thread-local
//! generator.
use vstd::prelude::*;

verus! {

/// Fills `bytes` from `rand::thread_rng()` through `RngCore::fill_bytes`.
/// Trusted: only that the buffer keeps its length; what it is filled with is
/// chance. (`thread_rng` panics if the operating system's entropy source cannot
/// seed it on first use, a fault of the machine that no argument excludes.)
#[verifier::external_body]
fn thread_rng_fill_bytes(bytes: &mut [u8])
    ensures
        final(bytes)@.len() == old(bytes)@.len(),
{
    rand::RngCore::fill_bytes(&mut rand::thread_rng(), bytes)
}

/// Overwrites every byte of `bytes` with cryptographically secure random bytes.
pub fn secure_random_fill_bytes(bytes: &mut [u8])
    ensures
        final(bytes)@.len() == old(bytes)@.len(),
{
    thread_rng_fill_bytes(bytes)
}

/// Types of which a random value can be drawn.
pub trait Randomizable: Sized {
    /// Generates and returns a random `T`. Currently essentially just an alias for
    /// `rand::random`. Assume `random` to be not secure! Even though `random` could
    /// use a cryptographically secure random number generator behind the scenes,
    /// use `random_secure` if you need crypto-random.
    fn random() -> Self {
        Self::random_secure()
    }

    /// Generates and returns a cryptographically secure random `T`.
    fn random_secure() -> Self;
}

/// Draws a `u8` with `rand::random::<u8>()` (the thread-local generator and the
/// `Standard` distribution). Nothing is promised of the value: it is chance.
#[verifier::external_body]
fn random_u8() -> u8 {
    rand::random::<u8>()
}

/// Draws a `u16` with `rand::random::<u16>()`. Nothing is promised of the value.
#[verifier::external_body]
fn random_u16() -> u16 {
    rand::random::<u16>()
}

/// Draws a `u32` with `rand::random::<u32>()`. Nothing is promised of the value.
#[verifier::external_body]
fn random_u32() -> u32 {
    rand::random::<u32>()
}

/// Draws a `u64` with `rand::random::<u64>()`. Nothing is promised of the value.
#[verifier::external_body]
fn random_u64() -> u64 {
    rand::random::<u64>()
}

/// Draws a `u128` with `rand::random::<u128>()`. Nothing is promised of the value.
#[verifier::external_body]
fn random_u128() -> u128 {
    rand::random::<u128>()
}

/// Draws a `usize` with `rand::random::<usize>()`. Nothing is promised of the value.
#[verifier::external_body]
fn random_usize() -> usize {
    rand::random::<usize>()
}

/// Draws a `i8` with `rand::random::<i8>()`. Nothing is promised of the value.
#[verifier::external_body]
fn random_i8() -> i8 {
    rand::random::<i8>()
}

/// Draws a `i16` with `rand::random::<i16>()`. Nothing is promised of the value.
#[verifier::external_body]
fn random_i16() -> i16 {
    rand::random::<i16>()
}

/// Draws a `i32` with `rand::random::<i32>()`. Nothing is promised of the value.
#[verifier::external_body]
fn random_i32() -> i32 {
    rand::random::<i32>()
}

/// Draws a `i64` with `rand::random::<i64>()`. Nothing is promised of the value.
#[verifier::external_body]
fn random_i64() -> i64 {
    rand::random::<i64>()
}

/// Draws a `i128` with `rand::random::<i128>()`. Nothing is promised of the value.
#[verifier::external_body]
fn random_i128() -> i128 {
    rand::random::<i128>()
}

/// Draws a `isize` with `rand::random::<isize>()`. Nothing is promised of the value.
#[verifier::external_body]
fn random_isize() -> isize {
    rand::random::<isize>()
}

/// Draws a `bool` with `rand::random::<bool>()`. Nothing is promised of the value.
#[verifier::external_body]
fn random_bool() -> bool {
    rand::random::<bool>()
}

/// Draws a `char` with `rand::random::<char>()`. Nothing is promised of the value.
#[verifier::external_body]
fn random_char() -> char {
    rand::random::<char>()
}

/// Draws `N` bytes with `rand::random::<[u8; N]>()`. Nothing is promised of the
/// value.
#[verifier::external_body]
fn random_byte_array<const N: usize>() -> [u8; N] {
    rand::random::<[u8; N]>()
}

impl Randomizable for u8 {
    fn random_secure() -> u8 {
        random_u8()
    }
}

impl Randomizable for u16 {
    fn random_secure() -> u16 {
        random_u16()
    }
}

impl Randomizable for u32 {
    fn random_secure() -> u32 {
        random_u32()
    }
}

impl Randomizable for u64 {
    fn random_secure() -> u64 {
        random_u64()
    }
}

impl Randomizable for u128 {
    fn random_secure() -> u128 {
        random_u128()
    }
}

impl Randomizable for usize {
    fn random_secure() -> usize {
        random_usize()
    }
}

impl Randomizable for i8 {
    fn random_secure() -> i8 {
        random_i8()
    }
}

impl Randomizable for i16 {
    fn random_secure() -> i16 {
        random_i16()
    }
}

impl Randomizable for i32 {
    fn random_secure() -> i32 {
        random_i32()
    }
}

impl Randomizable for i64 {
    fn random_secure() -> i64 {
        random_i64()
    }
}

impl Randomizable for i128 {
    fn random_secure() -> i128 {
        random_i128()
    }
}

impl Randomizable for isize {
    fn random_secure() -> isize {
        random_isize()
    }
}

impl Randomizable for bool {
    fn random_secure() -> bool {
        random_bool()
    }
}

impl Randomizable for char {
    fn random_secure() -> char {
        random_char()
    }
}

impl<const N: usize> Randomizable for [u8; N] {
    fn random_secure() -> [u8; N] {
        random_byte_array::<N>()
    }
}

} // verus!
