//! Seeing a value as something more general.

use vstd::prelude::*;

verus! {

/// A value that can be seen as a `T`.
pub trait Upcast<T: ?Sized> {
    fn upcast(&self) -> &T;
}

} // verus!
