//! The element type of a buffer.

use vstd::prelude::*;

verus! {

/// A sample: a plain copyable value with a default to fill fresh buffers with.
///
/// Every `Copy + Send + Default` type is a sample, with `Default::default()`
/// as its fill value, which is zero for the built-in numeric types.
pub trait Num: Copy + Send {
    /// Whether `value` is one that `default_value` may hand out.
    spec fn is_default(value: Self) -> bool;

    /// The value that a fresh buffer is filled with.
    fn default_value() -> (value: Self)
        ensures
            Self::is_default(value),
    ;
}

impl<T: Copy + Send + Default> Num for T {
    open spec fn is_default(value: T) -> bool {
        call_ensures(T::default, (), value)
    }

    fn default_value() -> (value: T) {
        T::default()
    }
}

} // verus!
