//! Telling at compile time whether a type has a default value.
//!
//! `DefaultDetector::<T>::maybe_default()` resolves to the inherent method
//! when `T: Default`, which gives the default, and to the `NotDefault` trait
//! method otherwise, which gives `None`.

use std::marker::PhantomData;
use vstd::prelude::*;

verus! {

/// The fallback for types without a default.
pub trait NotDefault<V> {
    fn maybe_default() -> Option<V>;
}

/// Picks a type's default value where it has one.
pub struct DefaultDetector<T>(PhantomData<T>);

impl<T> NotDefault<T> for DefaultDetector<T> {
    /// Without a default: `None`.
    fn maybe_default() -> (r: Option<T>)
        ensures
            r is None,
    {
        None
    }
}

impl<T: Default> DefaultDetector<T> {
    /// With a default: the default value.
    pub fn maybe_default() -> (r: Option<T>)
        ensures
            r matches Some(v) && call_ensures(T::default, (), v),
    {
        Some(T::default())
    }
}

} // verus!
