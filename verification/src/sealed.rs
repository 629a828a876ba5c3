//! Traits that cannot be implemented outside.

use vstd::prelude::*;

verus! {

pub trait Sealed {

}

impl<S: Sealed> Sealed for &S {

}

impl Sealed for () {

}

} // verus!
