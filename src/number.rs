//! The arithmetic a vector coordinate needs.
use vstd::prelude::*;

verus! {

/// A copyable type with the four arithmetic operators.
pub trait Number: Copy + core::ops::Add<Output = Self> + core::ops::Sub<Output = Self> + core::ops::Mul<
    Output = Self,
> + core::ops::Div<Output = Self> {

}

impl<T> Number for T where
    T: Copy + core::ops::Add<Output = T> + core::ops::Sub<Output = T> + core::ops::Mul<
        Output = T,
    > + core::ops::Div<Output = T>,
 {

}

} // verus!
