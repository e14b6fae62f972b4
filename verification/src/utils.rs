//! A set of named flags kept as the bits of an integer.

use vstd::prelude::*;
use std::ops::{BitAnd, BitOr, Not, Shl};

verus! {

/// Flags addressed by key, kept as the bits of `Repr`.
pub trait Bitmask {
    type Repr: Copy + From<u8> + BitOr<Output = Self::Repr> + BitAnd<Output = Self::Repr> + Not<
        Output = Self::Repr,
    > + Shl<u32, Output = Self::Repr>;

    type IndexKey: Copy;

    /// Sets or clears the flag of `key`.
    fn set(&mut self, key: Self::IndexKey, value: bool);

    /// Whether the flag of `key` is set.
    fn get(&self, key: Self::IndexKey) -> bool;

    /// The bit that holds the flag of `key`, if `key` names a flag.
    fn index(key: Self::IndexKey) -> Option<u8>;

    /// All the bits.
    fn inner(&self) -> Self::Repr;

    /// All the bits, to change in place.
    fn inner_mut(&mut self) -> &mut Self::Repr;
}

} // verus!
